//! The rules of the session store: shell settings, save summaries, slot ids and the metadata a
//! snapshot gets when it is saved or loaded. Reading and writing files is left to the caller.
use vstd::prelude::*;

use super::snapshot::{GameSnapshot, SaveKind};
use crate::fen_roundtrip::lemma_decimal_digits;
use crate::text::{is_whitespace, push_char, push_decimal, push_text, spec_decimal, spec_is_whitespace, spec_texts_of};
use vstd::relations::injective_on;
use vstd::set_lib::{lemma_int_range, lemma_len_subset, lemma_map_size, set_int_range};

verus! {

/// What to do with an interrupted session at startup.
#[derive(Debug, Clone, Copy, PartialEq, Eq, Structural)]
pub enum RecoveryStartupPolicy {
    Resume,
    Ignore,
    Ask,
}

impl Default for RecoveryStartupPolicy {
    fn default() -> (r: RecoveryStartupPolicy)
        ensures
            r == RecoveryStartupPolicy::Ask,
    {
        RecoveryStartupPolicy::Ask
    }
}

#[derive(Debug, Clone, Copy, PartialEq, Eq, Structural)]
pub enum DisplayMode {
    Windowed,
    Fullscreen,
}

impl Default for DisplayMode {
    fn default() -> (r: DisplayMode)
        ensures
            r == DisplayMode::Windowed,
    {
        DisplayMode::Windowed
    }
}

/// Which actions ask for confirmation first.
#[derive(Debug, Clone, Copy, PartialEq, Eq, Structural)]
pub struct ConfirmActionSettings {
    pub overwrite_save: bool,
    pub delete_save: bool,
    pub abandon_match: bool,
}

impl Default for ConfirmActionSettings {
    fn default() -> (r: ConfirmActionSettings)
        ensures
            r == (ConfirmActionSettings { overwrite_save: true, delete_save: true, abandon_match: true }),
    {
        ConfirmActionSettings { overwrite_save: true, delete_save: true, abandon_match: true }
    }
}

/// The persisted shell settings.
#[derive(Debug, Clone, Copy, PartialEq, Eq, Structural)]
pub struct ShellSettings {
    pub recovery_policy: RecoveryStartupPolicy,
    pub confirm_actions: ConfirmActionSettings,
    pub display_mode: DisplayMode,
}

impl ShellSettings {
    /// The settings of a fresh installation: ask about recovery, confirm everything, windowed.
    pub open spec fn spec_default() -> ShellSettings {
        ShellSettings {
            recovery_policy: RecoveryStartupPolicy::Ask,
            confirm_actions: ConfirmActionSettings { overwrite_save: true, delete_save: true, abandon_match: true },
            display_mode: DisplayMode::Windowed,
        }
    }
}

impl Default for ShellSettings {
    fn default() -> (r: ShellSettings)
        ensures
            r == ShellSettings::spec_default(),
    {
        ShellSettings {
            recovery_policy: RecoveryStartupPolicy::default(),
            confirm_actions: ConfirmActionSettings::default(),
            display_mode: DisplayMode::default(),
        }
    }
}

/// A line of the save list.
#[derive(Debug, Clone, PartialEq, Eq)]
pub struct SavedSessionSummary {
    pub slot_id: String,
    pub label: String,
    pub created_at_utc: Option<String>,
    pub save_kind: SaveKind,
}

pub open spec fn spec_text_of(t: Option<String>) -> Option<Seq<char>> {
    match t {
        Some(s) => Some(s@),
        None => None,
    }
}

pub(crate) fn copy_text(t: &Option<String>) -> (r: Option<String>)
    ensures
        spec_text_of(r) == spec_text_of(*t),
{
    match t {
        Some(s) => Some(s.clone()),
        None => None,
    }
}

impl SavedSessionSummary {
    /// The summary of a snapshot, under its session id.
    pub fn from_snapshot(snapshot: &GameSnapshot) -> (r: SavedSessionSummary)
        ensures
            r.slot_id@ == snapshot.metadata.session_id@,
            r.label@ == snapshot.metadata.label@,
            spec_text_of(r.created_at_utc) == spec_text_of(snapshot.metadata.created_at_utc),
            r.save_kind == snapshot.metadata.save_kind,
    {
        SavedSessionSummary {
            slot_id: snapshot.metadata.session_id.clone(),
            label: snapshot.metadata.label.clone(),
            created_at_utc: copy_text(&snapshot.metadata.created_at_utc),
            save_kind: snapshot.metadata.save_kind,
        }
    }

    /// The list entry of a manual save found in slot `slot_id`.
    pub fn for_manual_slot(slot_id: String, snapshot: &GameSnapshot) -> (r: SavedSessionSummary)
        ensures
            r.slot_id@ == slot_id@,
            r.label@ == snapshot.metadata.label@,
            spec_text_of(r.created_at_utc) == spec_text_of(snapshot.metadata.created_at_utc),
            r.save_kind == SaveKind::Manual,
    {
        SavedSessionSummary {
            slot_id,
            label: snapshot.metadata.label.clone(),
            created_at_utc: copy_text(&snapshot.metadata.created_at_utc),
            save_kind: SaveKind::Manual,
        }
    }
}

/// Why the store could not do what was asked; outside failures are kept as their messages.
#[derive(Debug, Clone, PartialEq, Eq)]
pub enum StoreError {
    Io(String),
    Serialization(String),
    MissingPlatformDir,
    InvalidSlotId(String),
}

impl StoreError {
    pub open spec fn spec_message(&self) -> Seq<char> {
        match self {
            StoreError::Io(reason) => "I/O error: "@ + reason@,
            StoreError::Serialization(reason) => "serialization error: "@ + reason@,
            StoreError::MissingPlatformDir => "missing platform data directory"@,
            StoreError::InvalidSlotId(slot_id) => "invalid slot id: "@ + slot_id@,
        }
    }

    /// The message shown for the error.
    pub fn to_string(&self) -> (r: String)
        ensures
            r@ == self.spec_message(),
    {
        let (mut out, detail) = match self {
            StoreError::Io(reason) => (String::from_str("I/O error: "), reason.as_str()),
            StoreError::Serialization(reason) => (String::from_str("serialization error: "), reason.as_str()),
            StoreError::MissingPlatformDir => (String::from_str("missing platform data directory"), ""),
            StoreError::InvalidSlotId(slot_id) => (String::from_str("invalid slot id: "), slot_id.as_str()),
        };
        proof {
            reveal_strlit("");
        }
        push_text(&mut out, detail);
        out
    }
}

/// The store of saved sessions under a root directory.
#[derive(Debug, Clone, PartialEq, Eq)]
pub struct SessionStore {
    root: String,
}

impl View for SessionStore {
    type V = Seq<char>;

    closed spec fn view(&self) -> Seq<char> {
        self.root@
    }
}

impl SessionStore {
    /// The store under `root`.
    pub fn new(root: &str) -> (r: SessionStore)
        ensures
            r@ == root@,
    {
        SessionStore { root: root.to_owned() }
    }

    /// The root directory of the store.
    pub fn root(&self) -> (r: &str)
        ensures
            r@ == self@,
    {
        self.root.as_str()
    }
}

// ---------------------------------------------------------------- trimming

/// The characters a trim removes: `-` when `dashes`, white space otherwise.
pub open spec fn spec_strip(dashes: bool, c: char) -> bool {
    if dashes {
        c == '-'
    } else {
        spec_is_whitespace(c)
    }
}

/// `t` without the stripped characters at either end.
pub open spec fn spec_trim(t: Seq<char>, dashes: bool) -> Seq<char>
    decreases t.len(),
{
    if t.len() > 0 && spec_strip(dashes, t[0]) {
        spec_trim(t.drop_first(), dashes)
    } else if t.len() > 0 && spec_strip(dashes, t.last()) {
        spec_trim(t.drop_last(), dashes)
    } else {
        t
    }
}

fn strips(dashes: bool, c: char) -> (r: bool)
    ensures
        r == spec_strip(dashes, c),
{
    if dashes {
        c == '-'
    } else {
        is_whitespace(c)
    }
}

/// Trims white space, or dashes, from both ends of `t`.
pub fn trim_text(t: &str, dashes: bool) -> (r: String)
    ensures
        r@ == spec_trim(t@, dashes),
{
    let n = t.unicode_len();
    let mut start: usize = 0;
    assert(t@.subrange(0, n as int) =~= t@);
    while start < n && strips(dashes, t.get_char(start))
        invariant
            n == t@.len(),
            start <= n,
            spec_trim(t@, dashes) == spec_trim(t@.subrange(start as int, n as int), dashes),
        decreases n - start,
    {
        let ghost sub = t@.subrange(start as int, n as int);
        assert(sub.drop_first() =~= t@.subrange(start + 1, n as int));
        start = start + 1;
    }
    let mut end: usize = n;
    while end > start && strips(dashes, t.get_char(end - 1))
        invariant
            n == t@.len(),
            start <= end <= n,
            start < n ==> !spec_strip(dashes, t@[start as int]),
            spec_trim(t@, dashes) == spec_trim(t@.subrange(start as int, end as int), dashes),
        decreases end - start,
    {
        let ghost sub = t@.subrange(start as int, end as int);
        assert(sub.drop_last() =~= t@.subrange(start as int, end - 1));
        assert(sub[0] == t@[start as int]);
        end = end - 1;
    }
    let piece = t.substring_char(start, end);
    proof {
        let sub = t@.subrange(start as int, end as int);
        if sub.len() > 0 {
            assert(sub[0] == t@[start as int]);
            assert(sub.last() == t@[end - 1]);
        }
    }
    piece.to_owned()
}

// ---------------------------------------------------------------- slot ids

/// The slug character for `c`: lower-case letters and digits stay, upper-case letters are
/// lowered, anything else becomes `-`.
pub open spec fn spec_slug_char(c: char) -> char {
    if ('a' <= c && c <= 'z') || ('0' <= c && c <= '9') {
        c
    } else if 'A' <= c && c <= 'Z' {
        ((c as u32) + 32) as char
    } else {
        '-'
    }
}

/// The slug of a label: its slug characters, without dashes at either end.
pub open spec fn spec_slugify(label: Seq<char>) -> Seq<char> {
    spec_trim(label.map_values(|c: char| spec_slug_char(c)), true)
}

fn slug_char(c: char) -> (r: char)
    ensures
        r == spec_slug_char(c),
{
    if ('a' <= c && c <= 'z') || ('0' <= c && c <= '9') {
        c
    } else if 'A' <= c && c <= 'Z' {
        ((c as u8) + 32) as char
    } else {
        '-'
    }
}

/// The slug of a label, as used for slot ids.
pub fn slugify_label(label: &str) -> (r: String)
    ensures
        r@ == spec_slugify(label@),
{
    let n = label.unicode_len();
    let mut mapped = String::new();
    let mut i: usize = 0;
    while i < n
        invariant
            n == label@.len(),
            i <= n,
            mapped@ == label@.take(i as int).map_values(|c: char| spec_slug_char(c)),
        decreases n - i,
    {
        let c = label.get_char(i);
        push_char(&mut mapped, slug_char(c));
        proof {
            assert(label@.take(i + 1) == label@.take(i as int).push(c));
            assert(label@.take(i + 1).map_values(|c: char| spec_slug_char(c)) =~= label@.take(i as int).map_values(
                |c: char| spec_slug_char(c),
            ).push(spec_slug_char(c)));
        }
        i = i + 1;
    }
    proof {
        assert(label@.take(n as int) == label@);
    }
    trim_text(mapped.as_str(), true)
}

/// A character allowed in a slot id: a lower-case letter, a digit or `-`.
pub open spec fn spec_slot_char(c: char) -> bool {
    ('a' <= c && c <= 'z') || ('0' <= c && c <= '9') || c == '-'
}

/// The slot id that `slot_id` names: the text trimmed of white space, when that is non-empty
/// and made of slot characters only.
pub open spec fn spec_valid_slot_id(slot_id: Seq<char>) -> Option<Seq<char>> {
    let trimmed = spec_trim(slot_id, false);
    if trimmed.len() > 0 && forall|k: int| 0 <= k < trimmed.len() ==> spec_slot_char(#[trigger] trimmed[k]) {
        Some(trimmed)
    } else {
        None
    }
}

/// Checks that a slot id is a safe file name, and trims it.
pub fn validate_slot_id(slot_id: &str) -> (r: Result<String, StoreError>)
    ensures
        match r {
            Ok(id) => spec_valid_slot_id(slot_id@) == Some(id@),
            Err(e) => spec_valid_slot_id(slot_id@) is None && (e matches StoreError::InvalidSlotId(s) && s@ == slot_id@),
        },
{
    let trimmed = trim_text(slot_id, false);
    let n = trimmed.as_str().unicode_len();
    if n == 0 {
        return Err(StoreError::InvalidSlotId(slot_id.to_owned()));
    }
    let mut i: usize = 0;
    while i < n
        invariant
            n == trimmed@.len(),
            i <= n,
            trimmed@ == spec_trim(slot_id@, false),
            forall|k: int| 0 <= k < i ==> spec_slot_char(#[trigger] trimmed@[k]),
        decreases n - i,
    {
        let c = trimmed.as_str().get_char(i);
        if !(('a' <= c && c <= 'z') || ('0' <= c && c <= '9') || c == '-') {
            assert(!spec_slot_char(trimmed@[i as int]));
            return Err(StoreError::InvalidSlotId(slot_id.to_owned()));
        }
        i = i + 1;
    }
    Ok(trimmed)
}

/// The file stem and extension of a file name, split at its last dot; a name with no dot, or
/// whose only dot starts it, has no extension, and neither has `..`.
pub open spec fn spec_split_extension(name: Seq<char>) -> Option<(Seq<char>, Seq<char>)> {
    if name == seq!['.', '.'] {
        None
    } else if exists|p: int| 0 < p < name.len() && name[p] == '.' && forall|q: int| p < q < name.len() ==> name[q] != '.' {
        let p = choose|p: int|
            0 < p < name.len() && name[p] == '.' && forall|q: int| p < q < name.len() ==> name[q] != '.';
        Some((name.subrange(0, p), name.subrange(p + 1, name.len() as int)))
    } else {
        None
    }
}

/// The slot id of a manual-save file: none for a file that is not `.json`, otherwise its stem,
/// which must be a valid slot id.
pub open spec fn spec_manual_slot_of_file(name: Seq<char>) -> Result<Option<Seq<char>>, ()> {
    match spec_split_extension(name) {
        Some((stem, ext)) => if ext == "json"@ {
            match spec_valid_slot_id(stem) {
                Some(id) => Ok(Some(id)),
                None => Err(()),
            }
        } else {
            Ok(None)
        },
        None => Ok(None),
    }
}

/// The slot id of the manual-save file named `name`.
pub fn manual_slot_id_from_file_name(name: &str) -> (r: Result<Option<String>, StoreError>)
    ensures
        match r {
            Ok(Some(id)) => spec_manual_slot_of_file(name@) == Ok::<Option<Seq<char>>, ()>(Some(id@)),
            Ok(None) => spec_manual_slot_of_file(name@) == Ok::<Option<Seq<char>>, ()>(None),
            Err(e) => spec_manual_slot_of_file(name@) == Err::<Option<Seq<char>>, ()>(()),
        },
{
    let n = name.unicode_len();
    if n == 2 && name.get_char(0) == '.' && name.get_char(1) == '.' {
        assert(name@ =~= seq!['.', '.']);
        return Ok(None);
    }
    assert(name@ != seq!['.', '.']);
    let mut p: usize = n;
    while p > 0 && name.get_char(p - 1) != '.'
        invariant
            n == name@.len(),
            p <= n,
            forall|q: int| p <= q < n ==> name@[q] != '.',
        decreases p,
    {
        p = p - 1;
    }
    if p <= 1 {
        proof {
            assert forall|k: int| 0 < k < name@.len() && name@[k] == '.' implies exists|q: int|
                k < q < name@.len() && name@[q] == '.' by {
                assert(false);
            }
        }
        return Ok(None);
    }
    let dot: usize = p - 1;
    assert(name@[dot as int] == '.');
    let ghost parts = spec_split_extension(name@);
    proof {
        let c = choose|c: int|
            0 < c < name@.len() && name@[c] == '.' && forall|q: int| c < q < name@.len() ==> name@[q] != '.';
        assert(c == dot) by {
            if c < dot {
                assert(name@[dot as int] != '.');
            } else if c > dot {
                assert(name@[c] != '.');
            }
        }
    }
    let stem = name.substring_char(0, dot);
    let ext = name.substring_char(p, n);
    let is_json = ext.unicode_len() == 4 && ext.get_char(0) == 'j' && ext.get_char(1) == 's' && ext.get_char(2)
        == 'o' && ext.get_char(3) == 'n';
    proof {
        reveal_strlit("json");
        if is_json {
            assert(ext@ =~= "json"@);
        } else {
            assert(ext@ != "json"@) by {
                if ext@ == "json"@ {
                    assert(ext@.len() == 4);
                    assert(ext@[0] == 'j' && ext@[1] == 's' && ext@[2] == 'o' && ext@[3] == 'n');
                }
            }
        }
    }
    if !is_json {
        return Ok(None);
    }
    match validate_slot_id(stem) {
        Ok(id) => Ok(Some(id)),
        Err(e) => Err(e),
    }
}

// ---------------------------------------------------------------- new slot ids

/// Whether some text of `v` equals `t`.
pub fn texts_contain(v: &Vec<String>, t: &str) -> (r: bool)
    ensures
        r == spec_texts_of(v@).contains(t@),
{
    let mut i: usize = 0;
    while i < v.len()
        invariant
            i <= v@.len(),
            forall|j: int| 0 <= j < i ==> (#[trigger] v@[j])@ != t@,
        decreases v@.len() - i,
    {
        if text_eq(v[i].as_str(), t) {
            assert(spec_texts_of(v@)[i as int] == t@);
            return true;
        }
        i = i + 1;
    }
    proof {
        if spec_texts_of(v@).contains(t@) {
            let j = choose|j: int| 0 <= j < spec_texts_of(v@).len() && spec_texts_of(v@)[j] == t@;
            assert(v@[j]@ == t@);
        }
    }
    false
}

/// Whether two texts are equal, character by character.
pub fn text_eq(a: &str, b: &str) -> (r: bool)
    ensures
        r == (a@ == b@),
{
    let n = a.unicode_len();
    if n != b.unicode_len() {
        return false;
    }
    let mut i: usize = 0;
    while i < n
        invariant
            n == a@.len(),
            n == b@.len(),
            i <= n,
            forall|k: int| 0 <= k < i ==> a@[k] == b@[k],
        decreases n - i,
    {
        if a.get_char(i) != b.get_char(i) {
            return false;
        }
        i = i + 1;
    }
    assert(a@ =~= b@);
    true
}

/// The slot id tried `k`-th for a base: the base itself, then the base followed by `-2`,
/// `-3` and so on.
pub open spec fn spec_slot_candidate(base: Seq<char>, k: nat) -> Seq<char> {
    if k <= 1 {
        base
    } else {
        base + seq!['-'] + spec_decimal(k)
    }
}

/// The base of the slot ids of a label: its slug, or `manual-save` when the slug is empty.
pub open spec fn spec_slot_base(label: Seq<char>) -> Seq<char> {
    if spec_slugify(label).len() == 0 {
        "manual-save"@
    } else {
        spec_slugify(label)
    }
}

/// `slot` is the first try for `label` that `taken` does not hold.
pub open spec fn spec_is_next_slot(label: Seq<char>, taken: Seq<Seq<char>>, slot: Seq<char>) -> bool {
    exists|k: nat|
        k >= 1 && slot == spec_slot_candidate(spec_slot_base(label), k) && !taken.contains(slot) && forall|j: nat|
            1 <= j < k ==> taken.contains(#[trigger] spec_slot_candidate(spec_slot_base(label), j))
}

/// Different tries give different slot ids.
proof fn lemma_candidates_distinct(base: Seq<char>, i: nat, j: nat)
    requires
        1 <= i,
        1 <= j,
        spec_slot_candidate(base, i) == spec_slot_candidate(base, j),
    ensures
        i == j,
{
    lemma_decimal_digits(i);
    lemma_decimal_digits(j);
    if i >= 2 && j >= 2 {
        let a = spec_slot_candidate(base, i);
        let start = base.len() + 1;
        assert(a.subrange(start as int, a.len() as int) =~= spec_decimal(i));
        assert(spec_slot_candidate(base, j).subrange(start as int, a.len() as int) =~= spec_decimal(j));
    } else if i >= 2 {
        assert(spec_slot_candidate(base, i).len() > base.len());
    } else if j >= 2 {
        assert(spec_slot_candidate(base, j).len() > base.len());
    }
}

/// When the first `m` tries are all taken, at least `m` slot ids are taken.
proof fn lemma_taken_tries(base: Seq<char>, taken: Seq<Seq<char>>, m: nat)
    requires
        forall|j: nat| 1 <= j <= m ==> taken.contains(#[trigger] spec_slot_candidate(base, j)),
    ensures
        m <= taken.len(),
{
    let f = |i: int| spec_slot_candidate(base, i as nat);
    let tries = set_int_range(1, (m + 1) as int);
    lemma_int_range(1, (m + 1) as int);
    assert(injective_on(f, tries)) by {
        assert forall|x: int, y: int| tries.contains(x) && tries.contains(y) && #[trigger] f(x) == #[trigger] f(y) implies x
            == y by {
            lemma_candidates_distinct(base, x as nat, y as nat);
        }
    }
    lemma_map_size(tries, tries.map(f), f);
    assert forall|t: Seq<char>| tries.map(f).contains(t) implies taken.to_set().contains(t) by {
        let x = choose|x: int| tries.contains(x) && f(x) == t;
        assert(taken.contains(spec_slot_candidate(base, x as nat)));
    }
    taken.lemma_cardinality_of_set();
    lemma_len_subset(tries.map(f), taken.to_set());
}

/// The first slot id for `label` that is not taken: the label's slug base, then the base with
/// `-2`, `-3` and so on.
pub fn next_manual_slot_id(label: &str, taken: &Vec<String>) -> (r: String)
    requires
        taken@.len() + 2 <= usize::MAX,
    ensures
        spec_is_next_slot(label@, spec_texts_of(taken@), r@),
{
    let slug = slugify_label(label);
    let base = if slug.as_str().unicode_len() == 0 {
        String::from_str("manual-save")
    } else {
        slug
    };
    let ghost names = spec_texts_of(taken@);
    let mut candidate = base.clone();
    let mut suffix: usize = 2;
    while texts_contain(taken, candidate.as_str())
        invariant
            taken@.len() + 2 <= usize::MAX,
            names == spec_texts_of(taken@),
            names.len() == taken@.len(),
            base@ == spec_slot_base(label@),
            2 <= suffix <= taken@.len() + 2,
            candidate@ == spec_slot_candidate(base@, (suffix - 1) as nat),
            forall|j: nat| 1 <= j < suffix - 1 ==> names.contains(#[trigger] spec_slot_candidate(base@, j)),
        decreases taken@.len() + 2 - suffix,
    {
        proof {
            assert(forall|j: nat| 1 <= j <= suffix - 1 ==> names.contains(#[trigger] spec_slot_candidate(base@, j)));
            lemma_taken_tries(base@, names, (suffix - 1) as nat);
        }
        let mut next = base.clone();
        push_char(&mut next, '-');
        push_decimal(&mut next, suffix as u64);
        proof {
            assert(next@ =~= spec_slot_candidate(base@, suffix as nat));
        }
        candidate = next;
        suffix = suffix + 1;
    }
    candidate
}

// ---------------------------------------------------------------- saving and loading

/// The current time as RFC 3339 text, read from the system clock through the `time` crate.
/// Nothing is stated of the text: it depends on the clock (on a formatting failure, which the
/// crate reports only for years outside 0..=9999, it is empty).
#[verifier::external_body]
fn now_utc() -> (r: String) {
    match time::OffsetDateTime::now_utc().format(&time::format_description::well_known::Rfc3339) {
        Ok(text) => text,
        Err(_) => String::new(),
    }
}

/// The label of a manual save: the given label, or `Manual Save <time>` for a blank one.
pub open spec fn spec_manual_label(label: Seq<char>, now: Seq<char>) -> Seq<char> {
    if spec_trim(label, false).len() == 0 {
        "Manual Save "@ + now
    } else {
        label
    }
}

/// The snapshot kept unchanged apart from its metadata.
pub open spec fn spec_same_session(a: GameSnapshot, b: GameSnapshot) -> bool {
    &&& a.version == b.version
    &&& a.game_state@ == b.game_state@
    &&& a.shell_state == b.shell_state
    &&& spec_text_of(a.metadata.notes) == spec_text_of(b.metadata.notes)
}

/// Whether `saved` is `snapshot` prepared as a manual save at time `now` with the slot ids in
/// `taken` in use.
pub open spec fn spec_manual_save_at(snapshot: GameSnapshot, now: Seq<char>, taken: Seq<Seq<char>>, saved: GameSnapshot) -> bool {
    let label = spec_manual_label(snapshot.metadata.label@, now);
    &&& spec_same_session(saved, snapshot)
    &&& saved.metadata.label@ == label
    &&& if spec_trim(snapshot.metadata.session_id@, false).len() == 0 {
        spec_is_next_slot(label, taken, saved.metadata.session_id@)
    } else {
        spec_valid_slot_id(snapshot.metadata.session_id@) == Some(saved.metadata.session_id@)
    }
    &&& saved.metadata.save_kind == SaveKind::Manual
    &&& spec_text_of(saved.metadata.created_at_utc) == match snapshot.metadata.created_at_utc {
        Some(t) => Some(t@),
        None => Some(now),
    }
    &&& spec_text_of(saved.metadata.updated_at_utc) == Some(now)
    &&& spec_text_of(saved.metadata.recovery_key) == spec_text_of(snapshot.metadata.recovery_key)
}

/// Whether `r` is `snapshot` prepared as the recovery record at time `now`.
pub open spec fn spec_recovery_at(snapshot: GameSnapshot, now: Seq<char>, r: GameSnapshot) -> bool {
    &&& spec_same_session(r, snapshot)
    &&& r.metadata.label@ == snapshot.metadata.label@
    &&& r.metadata.save_kind == SaveKind::Recovery
    &&& r.metadata.session_id@ == "recovery"@
    &&& spec_text_of(r.metadata.recovery_key) == match snapshot.metadata.recovery_key {
        Some(k) => Some(k@),
        None => Some("autosave"@),
    }
    &&& spec_text_of(r.metadata.created_at_utc) == match snapshot.metadata.created_at_utc {
        Some(t) => Some(t@),
        None => Some(now),
    }
    &&& spec_text_of(r.metadata.updated_at_utc) == Some(now)
}

/// The metadata a manual save gets at time `now`, with the slot ids in `taken` in use: a
/// label, a slot id (a new one for a blank id, else the id checked and trimmed), the manual
/// kind, a creation time kept or set to `now`, and `now` as the update time. An id that is not
/// blank and not valid is refused.
pub fn prepare_manual_save(snapshot: GameSnapshot, now: &str, taken: &Vec<String>) -> (r: Result<
    GameSnapshot,
    StoreError,
>)
    requires
        taken@.len() + 2 <= usize::MAX,
    ensures
        match r {
            Ok(saved) => spec_manual_save_at(snapshot, now@, spec_texts_of(taken@), saved),
            Err(e) => {
                &&& spec_trim(snapshot.metadata.session_id@, false).len() > 0
                &&& spec_valid_slot_id(snapshot.metadata.session_id@) is None
                &&& e matches StoreError::InvalidSlotId(id) && id@ == snapshot.metadata.session_id@
            },
        },
{
    let mut saved = snapshot;
    if trim_text(saved.metadata.label.as_str(), false).as_str().unicode_len() == 0 {
        let mut label = String::from_str("Manual Save ");
        push_text(&mut label, now);
        saved.metadata.label = label;
    }
    let slot = if trim_text(saved.metadata.session_id.as_str(), false).as_str().unicode_len() == 0 {
        next_manual_slot_id(saved.metadata.label.as_str(), taken)
    } else {
        match validate_slot_id(saved.metadata.session_id.as_str()) {
            Ok(id) => id,
            Err(e) => {
                return Err(e);
            },
        }
    };
    saved.metadata.session_id = slot;
    saved.metadata.save_kind = SaveKind::Manual;
    if saved.metadata.created_at_utc.is_none() {
        saved.metadata.created_at_utc = Some(now.to_owned());
    }
    saved.metadata.updated_at_utc = Some(now.to_owned());
    Ok(saved)
}

/// `prepare_manual_save` at the current time, which the clock decides and is not stated.
pub fn prepare_manual_save_now(snapshot: GameSnapshot, taken: &Vec<String>) -> (r: Result<GameSnapshot, StoreError>)
    requires
        taken@.len() + 2 <= usize::MAX,
    ensures
        match r {
            Ok(saved) => exists|now: Seq<char>| #[trigger] spec_manual_save_at(snapshot, now, spec_texts_of(taken@), saved),
            Err(e) => {
                &&& spec_trim(snapshot.metadata.session_id@, false).len() > 0
                &&& spec_valid_slot_id(snapshot.metadata.session_id@) is None
                &&& e matches StoreError::InvalidSlotId(id) && id@ == snapshot.metadata.session_id@
            },
        },
{
    let now = now_utc();
    let r = prepare_manual_save(snapshot, now.as_str(), taken);
    proof {
        if r is Ok {
            assert(spec_manual_save_at(snapshot, now@, spec_texts_of(taken@), r->Ok_0));
        }
    }
    r
}

/// The metadata the recovery record gets at time `now`: the recovery kind and session id, a
/// recovery key kept or set to `autosave`, a creation time kept or set to `now`, and `now` as
/// the update time.
pub fn prepare_recovery(snapshot: GameSnapshot, now: &str) -> (r: GameSnapshot)
    ensures
        spec_recovery_at(snapshot, now@, r),
{
    let mut saved = snapshot;
    saved.metadata.save_kind = SaveKind::Recovery;
    saved.metadata.session_id = String::from_str("recovery");
    if saved.metadata.recovery_key.is_none() {
        saved.metadata.recovery_key = Some(String::from_str("autosave"));
    }
    if saved.metadata.created_at_utc.is_none() {
        saved.metadata.created_at_utc = Some(now.to_owned());
    }
    saved.metadata.updated_at_utc = Some(now.to_owned());
    saved
}

/// `prepare_recovery` at the current time, which the clock decides and is not stated.
pub fn prepare_recovery_now(snapshot: GameSnapshot) -> (r: GameSnapshot)
    ensures
        exists|now: Seq<char>| #[trigger] spec_recovery_at(snapshot, now, r),
{
    let now = now_utc();
    let r = prepare_recovery(snapshot, now.as_str());
    assert(spec_recovery_at(snapshot, now@, r));
    r
}

/// A manual save as loaded from slot `slot_id`: the slot decides its id and it is a manual
/// save, whatever the file says.
pub fn mark_loaded_manual(snapshot: GameSnapshot, slot_id: String) -> (r: GameSnapshot)
    ensures
        spec_same_session(r, snapshot),
        r.metadata.label@ == snapshot.metadata.label@,
        r.metadata.session_id@ == slot_id@,
        r.metadata.save_kind == SaveKind::Manual,
        spec_text_of(r.metadata.created_at_utc) == spec_text_of(snapshot.metadata.created_at_utc),
        spec_text_of(r.metadata.updated_at_utc) == spec_text_of(snapshot.metadata.updated_at_utc),
        spec_text_of(r.metadata.recovery_key) == spec_text_of(snapshot.metadata.recovery_key),
{
    let mut loaded = snapshot;
    loaded.metadata.session_id = slot_id;
    loaded.metadata.save_kind = SaveKind::Manual;
    loaded
}

/// The recovery record as loaded: it is the recovery session, whatever the file says.
pub fn mark_loaded_recovery(snapshot: GameSnapshot) -> (r: GameSnapshot)
    ensures
        spec_same_session(r, snapshot),
        r.metadata.label@ == snapshot.metadata.label@,
        r.metadata.session_id@ == "recovery"@,
        r.metadata.save_kind == SaveKind::Recovery,
        spec_text_of(r.metadata.created_at_utc) == spec_text_of(snapshot.metadata.created_at_utc),
        spec_text_of(r.metadata.updated_at_utc) == spec_text_of(snapshot.metadata.updated_at_utc),
        spec_text_of(r.metadata.recovery_key) == spec_text_of(snapshot.metadata.recovery_key),
{
    let mut loaded = snapshot;
    loaded.metadata.session_id = String::from_str("recovery");
    loaded.metadata.save_kind = SaveKind::Recovery;
    loaded
}

// ---------------------------------------------------------------- the save list

/// Text order: character by character from position `i`, a proper prefix coming first.
pub open spec fn spec_text_less_from(x: Seq<char>, y: Seq<char>, i: int) -> bool
    decreases x.len() - i,
{
    if i >= x.len() {
        i < y.len()
    } else if i >= y.len() {
        false
    } else if x[i] != y[i] {
        (x[i] as u32) < (y[i] as u32)
    } else {
        spec_text_less_from(x, y, i + 1)
    }
}

pub open spec fn spec_text_less(x: Seq<char>, y: Seq<char>) -> bool {
    spec_text_less_from(x, y, 0)
}

/// The order of optional times: no time comes before any time.
pub open spec fn spec_time_less(a: Option<Seq<char>>, b: Option<Seq<char>>) -> bool {
    match (a, b) {
        (None, Some(_)) => true,
        (Some(x), Some(y)) => spec_text_less(x, y),
        _ => false,
    }
}

/// Whether `x` comes before `y` in text order.
pub fn text_less(x: &str, y: &str) -> (r: bool)
    ensures
        r == spec_text_less(x@, y@),
{
    let n = x.unicode_len();
    let m = y.unicode_len();
    let mut i: usize = 0;
    while i < n && i < m && x.get_char(i) == y.get_char(i)
        invariant
            n == x@.len(),
            m == y@.len(),
            i <= n,
            i <= m,
            spec_text_less(x@, y@) == spec_text_less_from(x@, y@, i as int),
        decreases n - i,
    {
        i = i + 1;
    }
    if i >= n {
        i < m
    } else if i >= m {
        false
    } else {
        (x.get_char(i) as u32) < (y.get_char(i) as u32)
    }
}

fn time_less(a: &Option<String>, b: &Option<String>) -> (r: bool)
    ensures
        r == spec_time_less(spec_text_of(*a), spec_text_of(*b)),
{
    match (a, b) {
        (None, Some(_)) => true,
        (Some(x), Some(y)) => text_less(x.as_str(), y.as_str()),
        _ => false,
    }
}

pub open spec fn spec_summary_time(s: SavedSessionSummary) -> Option<Seq<char>> {
    spec_text_of(s.created_at_utc)
}

/// `x` placed into a newest-first list: before the first entry created before it.
pub open spec fn spec_insert_newest_first(sorted: Seq<SavedSessionSummary>, x: SavedSessionSummary) -> Seq<
    SavedSessionSummary,
>
    decreases sorted.len(),
{
    if sorted.len() == 0 {
        seq![x]
    } else if spec_time_less(spec_summary_time(sorted[0]), spec_summary_time(x)) {
        seq![x] + sorted
    } else {
        seq![sorted[0]] + spec_insert_newest_first(sorted.drop_first(), x)
    }
}

/// The summaries ordered newest first by creation time, summaries created at the same time
/// keeping their order.
pub open spec fn spec_newest_first(v: Seq<SavedSessionSummary>) -> Seq<SavedSessionSummary>
    decreases v.len(),
{
    if v.len() == 0 {
        Seq::empty()
    } else {
        spec_insert_newest_first(spec_newest_first(v.drop_last()), v.last())
    }
}

/// Whether no summary of the list was created before one that follows it.
pub open spec fn spec_is_newest_first(s: Seq<SavedSessionSummary>) -> bool {
    forall|i: int, j: int|
        0 <= i < j < s.len() ==> !spec_time_less(spec_summary_time(#[trigger] s[i]), spec_summary_time(#[trigger] s[j]))
}

proof fn lemma_text_less_trans(x: Seq<char>, y: Seq<char>, z: Seq<char>, i: int)
    requires
        0 <= i,
        spec_text_less_from(x, y, i),
        spec_text_less_from(y, z, i),
    ensures
        spec_text_less_from(x, z, i),
    decreases x.len() - i,
{
    if i < x.len() && i < y.len() && i < z.len() && x[i] == y[i] && y[i] == z[i] {
        lemma_text_less_trans(x, y, z, i + 1);
    }
}

proof fn lemma_time_less_trans(a: Option<Seq<char>>, b: Option<Seq<char>>, c: Option<Seq<char>>)
    requires
        spec_time_less(a, b),
        spec_time_less(b, c),
    ensures
        spec_time_less(a, c),
{
    if a is Some {
        lemma_text_less_trans(a->0, b->0, c->0, 0);
    }
}

proof fn lemma_insert_keeps_order(sorted: Seq<SavedSessionSummary>, x: SavedSessionSummary)
    requires
        spec_is_newest_first(sorted),
    ensures
        spec_is_newest_first(spec_insert_newest_first(sorted, x)),
        spec_insert_newest_first(sorted, x).to_multiset() == sorted.to_multiset().insert(x),
    decreases sorted.len(),
{
    broadcast use vstd::seq_lib::group_to_multiset_ensures, vstd::seq_lib::lemma_multiset_commutative;

    let r = spec_insert_newest_first(sorted, x);
    if sorted.len() == 0 {
        assert(r =~= Seq::<SavedSessionSummary>::empty().push(x));
    } else if spec_time_less(spec_summary_time(sorted[0]), spec_summary_time(x)) {
        assert(r =~= sorted.insert(0, x));
        assert forall|i: int, j: int| 0 <= i < j < r.len() implies !spec_time_less(
            spec_summary_time(#[trigger] r[i]),
            spec_summary_time(#[trigger] r[j]),
        ) by {
            if i == 0 {
                if spec_time_less(spec_summary_time(x), spec_summary_time(r[j])) {
                    lemma_time_less_trans(spec_summary_time(sorted[0]), spec_summary_time(x), spec_summary_time(r[j]));
                    assert(r[j] == sorted[j - 1]);
                    if j - 1 > 0 {
                        assert(!spec_time_less(spec_summary_time(sorted[0]), spec_summary_time(sorted[j - 1])));
                    } else {
                        assert(spec_time_less(spec_summary_time(sorted[0]), spec_summary_time(sorted[0])));
                        lemma_time_less_irreflexive(spec_summary_time(sorted[0]));
                    }
                }
            } else {
                assert(r[i] == sorted[i - 1] && r[j] == sorted[j - 1]);
            }
        }
    } else {
        let rest = sorted.drop_first();
        assert forall|i: int, j: int| 0 <= i < j < rest.len() implies !spec_time_less(
            spec_summary_time(#[trigger] rest[i]),
            spec_summary_time(#[trigger] rest[j]),
        ) by {
            assert(rest[i] == sorted[i + 1] && rest[j] == sorted[j + 1]);
        }
        lemma_insert_keeps_order(rest, x);
        let tail = spec_insert_newest_first(rest, x);
        assert(r == seq![sorted[0]] + tail);
        assert forall|j: int| 0 <= j < tail.len() implies !spec_time_less(
            spec_summary_time(sorted[0]),
            spec_summary_time(#[trigger] tail[j]),
        ) by {
            assert(tail.to_multiset().count(tail[j]) > 0);
            assert(rest.to_multiset().insert(x).count(tail[j]) > 0);
            if tail[j] != x {
                assert(rest.to_multiset().count(tail[j]) > 0);
                assert(rest.contains(tail[j]));
                let k = choose|k: int| 0 <= k < rest.len() && rest[k] == tail[j];
                assert(sorted[k + 1] == tail[j]);
            }
        }
        assert forall|i: int, j: int| 0 <= i < j < r.len() implies !spec_time_less(
            spec_summary_time(#[trigger] r[i]),
            spec_summary_time(#[trigger] r[j]),
        ) by {
            if i == 0 {
                assert(r[j] == tail[j - 1]);
            } else {
                assert(r[i] == tail[i - 1] && r[j] == tail[j - 1]);
            }
        }
        assert(sorted =~= seq![sorted[0]] + rest);
        assert((seq![sorted[0]] + tail).to_multiset() =~= seq![sorted[0]].to_multiset().add(tail.to_multiset()));
        assert((seq![sorted[0]] + rest).to_multiset() =~= seq![sorted[0]].to_multiset().add(rest.to_multiset()));
        assert(r.to_multiset() =~= sorted.to_multiset().insert(x));
    }
}

proof fn lemma_time_less_irreflexive(a: Option<Seq<char>>)
    ensures
        !spec_time_less(a, a),
{
    if a is Some {
        lemma_text_less_irreflexive(a->0, 0);
    }
}

proof fn lemma_text_less_irreflexive(x: Seq<char>, i: int)
    requires
        0 <= i,
    ensures
        !spec_text_less_from(x, x, i),
    decreases x.len() - i,
{
    if i < x.len() {
        lemma_text_less_irreflexive(x, i + 1);
    }
}

/// The save list comes out newest first and holds exactly the saves it was given.
pub proof fn law_sort_newest_first(saves: Seq<SavedSessionSummary>)
    ensures
        spec_is_newest_first(spec_newest_first(saves)),
        spec_newest_first(saves).to_multiset() == saves.to_multiset(),
    decreases saves.len(),
{
    broadcast use vstd::seq_lib::group_to_multiset_ensures;

    if saves.len() > 0 {
        law_sort_newest_first(saves.drop_last());
        lemma_insert_keeps_order(spec_newest_first(saves.drop_last()), saves.last());
        assert(saves =~= saves.drop_last().push(saves.last()));
    } else {
        assert(spec_newest_first(saves) =~= saves);
    }
}

/// Inserting before the first entry created before `x` is inserting at that entry's position.
proof fn lemma_insert_at(sorted: Seq<SavedSessionSummary>, x: SavedSessionSummary, pos: int)
    requires
        0 <= pos <= sorted.len(),
        forall|i: int| 0 <= i < pos ==> !spec_time_less(spec_summary_time(#[trigger] sorted[i]), spec_summary_time(x)),
        pos < sorted.len() ==> spec_time_less(spec_summary_time(sorted[pos]), spec_summary_time(x)),
    ensures
        spec_insert_newest_first(sorted, x) == sorted.take(pos) + seq![x] + sorted.skip(pos),
    decreases pos,
{
    if pos == 0 {
        if sorted.len() == 0 {
            assert(sorted.take(0) + seq![x] + sorted.skip(0) =~= seq![x]);
        } else {
            assert(sorted.take(0) + seq![x] + sorted.skip(0) =~= seq![x] + sorted);
        }
    } else {
        let rest = sorted.drop_first();
        assert forall|i: int| 0 <= i < pos - 1 implies !spec_time_less(spec_summary_time(#[trigger] rest[i]), spec_summary_time(x)) by {
            assert(rest[i] == sorted[i + 1]);
        }
        if pos < sorted.len() {
            assert(rest[pos - 1] == sorted[pos]);
        }
        lemma_insert_at(rest, x, pos - 1);
        assert(!spec_time_less(spec_summary_time(sorted[0]), spec_summary_time(x)));
        assert(seq![sorted[0]] + (rest.take(pos - 1) + seq![x] + rest.skip(pos - 1)) =~= sorted.take(pos) + seq![x]
            + sorted.skip(pos));
    }
}

pub(crate) fn copy_summary(s: &SavedSessionSummary) -> (r: SavedSessionSummary)
    ensures
        r == *s,
{
    SavedSessionSummary {
        slot_id: s.slot_id.clone(),
        label: s.label.clone(),
        created_at_utc: match &s.created_at_utc {
            Some(t) => Some(t.clone()),
            None => None,
        },
        save_kind: s.save_kind,
    }
}

/// The save list ordered newest first by creation time; saves without a time come last and
/// saves created at the same time keep their order.
pub fn sort_newest_first(saves: Vec<SavedSessionSummary>) -> (r: Vec<SavedSessionSummary>)
    ensures
        r@ == spec_newest_first(saves@),
{
    let mut sorted: Vec<SavedSessionSummary> = Vec::new();
    let mut k: usize = 0;
    while k < saves.len()
        invariant
            k <= saves@.len(),
            sorted@ == spec_newest_first(saves@.take(k as int)),
        decreases saves@.len() - k,
    {
        let x = copy_summary(&saves[k]);
        let mut pos: usize = 0;
        while pos < sorted.len() && !time_less(&sorted[pos].created_at_utc, &x.created_at_utc)
            invariant
                pos <= sorted@.len(),
                forall|i: int|
                    0 <= i < pos ==> !spec_time_less(spec_summary_time(#[trigger] sorted@[i]), spec_summary_time(x)),
            decreases sorted@.len() - pos,
        {
            pos = pos + 1;
        }
        proof {
            lemma_insert_at(sorted@, x, pos as int);
            assert(saves@.take(k + 1).drop_last() =~= saves@.take(k as int));
            assert(saves@.take(k + 1).last() == saves@[k as int]);
        }
        let ghost before = sorted@;
        sorted.insert(pos, x);
        proof {
            assert(sorted@ =~= before.take(pos as int) + seq![x] + before.skip(pos as int));
        }
        k = k + 1;
    }
    proof {
        assert(saves@.take(k as int) =~= saves@);
    }
    sorted
}

} // verus!