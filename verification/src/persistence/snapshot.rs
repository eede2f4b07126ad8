//! Versioned saved-session snapshots for manual saves and interrupted-session recovery: the
//! game itself plus the interaction state that a resumed session needs.
use vstd::prelude::*;

use crate::game::GameState;
use crate::mv::Move;
use crate::square::Square;

verus! {

/// The version of the snapshot format.
#[derive(Debug, Clone, Copy, PartialEq, Eq, Structural)]
pub enum SaveFormatVersion {
    V1,
    V2,
}

impl Default for SaveFormatVersion {
    /// The current version.
    fn default() -> (r: SaveFormatVersion)
        ensures
            r == SaveFormatVersion::V2,
    {
        SaveFormatVersion::V2
    }
}

/// Whether a snapshot is a manual save or the interrupted-session recovery record.
#[derive(Debug, Clone, Copy, PartialEq, Eq, Structural)]
pub enum SaveKind {
    Manual,
    Recovery,
}

impl Default for SaveKind {
    fn default() -> (r: SaveKind)
        ensures
            r == SaveKind::Manual,
    {
        SaveKind::Manual
    }
}

/// A draw that the player claimed.
#[derive(Debug, Clone, Copy, PartialEq, Eq, Structural)]
pub enum ClaimedDrawSnapshot {
    ThreefoldRepetition,
    FiftyMoveRule,
}

/// A pawn move waiting for its promotion piece.
#[derive(Debug, Clone, Copy, PartialEq, Eq, Structural)]
pub struct PendingPromotionSnapshot {
    pub from: Square,
    pub to: Square,
}

/// The interaction state that must survive a restore.
#[derive(Debug, Clone, Copy, PartialEq, Eq, Structural)]
pub struct SnapshotShellState {
    pub selected_square: Option<Square>,
    pub pending_promotion: Option<PendingPromotionSnapshot>,
    pub last_move: Option<Move>,
    pub claimed_draw: Option<ClaimedDrawSnapshot>,
    pub dirty_recovery: bool,
}

impl Default for SnapshotShellState {
    fn default() -> (r: SnapshotShellState)
        ensures
            r == (SnapshotShellState {
                selected_square: None,
                pending_promotion: None,
                last_move: None,
                claimed_draw: None,
                dirty_recovery: false,
            }),
    {
        SnapshotShellState {
            selected_square: None,
            pending_promotion: None,
            last_move: None,
            claimed_draw: None,
            dirty_recovery: false,
        }
    }
}

/// What a snapshot says about itself.
#[derive(Debug, Clone, PartialEq, Eq)]
pub struct SnapshotMetadata {
    pub label: String,
    pub created_at_utc: Option<String>,
    pub updated_at_utc: Option<String>,
    pub notes: Option<String>,
    pub save_kind: SaveKind,
    pub session_id: String,
    pub recovery_key: Option<String>,
}

impl Default for SnapshotMetadata {
    fn default() -> (r: SnapshotMetadata)
        ensures
            r.label@ == Seq::<char>::empty(),
            r.created_at_utc is None,
            r.updated_at_utc is None,
            r.notes is None,
            r.save_kind == SaveKind::Manual,
            r.session_id@ == Seq::<char>::empty(),
            r.recovery_key is None,
    {
        SnapshotMetadata {
            label: String::new(),
            created_at_utc: None,
            updated_at_utc: None,
            notes: None,
            save_kind: SaveKind::Manual,
            session_id: String::new(),
            recovery_key: None,
        }
    }
}

/// A saved session: the game, its metadata and its interaction state.
#[derive(Debug, PartialEq, Eq)]
pub struct GameSnapshot {
    pub version: SaveFormatVersion,
    pub game_state: GameState,
    pub metadata: SnapshotMetadata,
    pub shell_state: SnapshotShellState,
}

impl GameSnapshot {
    /// A current-version snapshot without interaction state.
    pub fn new(game_state: GameState, metadata: SnapshotMetadata) -> (r: GameSnapshot)
        ensures
            r.version == SaveFormatVersion::V2,
            r.game_state@ == game_state@,
            r.metadata == metadata,
            r.shell_state == (SnapshotShellState {
                selected_square: None,
                pending_promotion: None,
                last_move: None,
                claimed_draw: None,
                dirty_recovery: false,
            }),
    {
        GameSnapshot::from_parts(game_state, metadata, SnapshotShellState::default())
    }

    /// A current-version snapshot from its parts.
    pub fn from_parts(game_state: GameState, metadata: SnapshotMetadata, shell_state: SnapshotShellState) -> (r:
        GameSnapshot)
        ensures
            r.version == SaveFormatVersion::V2,
            r.game_state@ == game_state@,
            r.metadata == metadata,
            r.shell_state == shell_state,
    {
        GameSnapshot { version: SaveFormatVersion::V2, game_state, metadata, shell_state }
    }

    /// The saved game, ready to be played on.
    pub fn restore_game_state(&self) -> (r: GameState)
        ensures
            r@ == self.game_state@,
    {
        self.game_state.copy()
    }

    pub fn metadata(&self) -> (r: &SnapshotMetadata)
        ensures
            *r == self.metadata,
    {
        &self.metadata
    }

    pub fn shell_state(&self) -> (r: &SnapshotShellState)
        ensures
            *r == self.shell_state,
    {
        &self.shell_state
    }
}

} // verus!
