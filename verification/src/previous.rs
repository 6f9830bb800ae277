//! The slots that remember the previous context or namespace, and how a
//! remembered value is read back.
use crate::text::{
    is_white_space, join_path, lemma_trim_idempotent, lemma_trim_of_untrimmed, path_join, trim,
    trimmed,
};
use vstd::prelude::*;

verus! {

/// One remembered value: per session or global, context or namespace.
#[derive(Clone, Copy, Debug, PartialEq, Eq, Structural)]
pub enum Slot {
    SessionContext,
    SessionNamespace,
    GlobalContext,
    GlobalNamespace,
}

/// The name of the file that holds a slot.
pub open spec fn slot_filename(slot: Slot) -> Seq<char> {
    match slot {
        Slot::SessionContext => "session_context"@,
        Slot::SessionNamespace => "session_namespace"@,
        Slot::GlobalContext => "global_context"@,
        Slot::GlobalNamespace => "global_namespace"@,
    }
}

/// How a slot is named in messages.
pub open spec fn slot_label(slot: Slot) -> Seq<char> {
    match slot {
        Slot::SessionContext => "previous session context"@,
        Slot::SessionNamespace => "previous session namespace"@,
        Slot::GlobalContext => "previous global context"@,
        Slot::GlobalNamespace => "previous global namespace"@,
    }
}

impl Slot {
    pub fn filename(self) -> (r: &'static str)
        ensures
            r@ == slot_filename(self),
    {
        match self {
            Slot::SessionContext => "session_context",
            Slot::SessionNamespace => "session_namespace",
            Slot::GlobalContext => "global_context",
            Slot::GlobalNamespace => "global_namespace",
        }
    }

    pub fn label(self) -> (r: &'static str)
        ensures
            r@ == slot_label(self),
    {
        match self {
            Slot::SessionContext => "previous session context",
            Slot::SessionNamespace => "previous session namespace",
            Slot::GlobalContext => "previous global context",
            Slot::GlobalNamespace => "previous global namespace",
        }
    }
}

/// The directory under `dest` that holds the slots.
pub open spec fn slot_dir(dest: Seq<char>) -> Seq<char> {
    join_path(dest, ".previous"@)
}

/// The file under `dest` that holds `slot`.
pub open spec fn slot_path(dest: Seq<char>, slot: Slot) -> Seq<char> {
    join_path(slot_dir(dest), slot_filename(slot))
}

/// The value that a slot file with contents `contents` gives back: the
/// contents without surrounding whitespace, or nothing where that is empty.
pub open spec fn stored(contents: Seq<char>) -> Option<Seq<char>> {
    if trim(contents).len() == 0 {
        None
    } else {
        Some(trim(contents))
    }
}

pub fn dir(dest: &str) -> (r: String)
    ensures
        r@ == slot_dir(dest@),
{
    path_join(dest, ".previous")
}

pub fn path(dest: &str, slot: Slot) -> (r: String)
    ensures
        r@ == slot_path(dest@, slot),
{
    let d = dir(dest);
    path_join(d.as_str(), slot.filename())
}

/// The value remembered in a slot whose file holds `contents`.
pub fn stored_value(contents: &str) -> (r: Option<String>)
    ensures
        r matches Some(v) ==> stored(contents@) == Some(v@),
        r is None ==> stored(contents@) is None,
{
    let t = trimmed(contents);
    if t.as_str().is_empty() {
        None
    } else {
        Some(t)
    }
}

proof fn lemma_filename_shape(slot: Slot)
    ensures
        forall|k: int| 0 <= k < slot_filename(slot).len() ==> slot_filename(slot)[k] != '/',
        slot_filename(slot).len() == match slot {
            Slot::SessionContext => 15int,
            Slot::SessionNamespace => 17int,
            Slot::GlobalContext => 14int,
            Slot::GlobalNamespace => 16int,
        },
{
    reveal_strlit("session_context");
    reveal_strlit("session_namespace");
    reveal_strlit("global_context");
    reveal_strlit("global_namespace");
}

proof fn lemma_slot_path_shape(dest: Seq<char>, slot: Slot)
    ensures
        slot_path(dest, slot) == slot_dir(dest) + seq!['/'] + slot_filename(slot),
{
    reveal_strlit(".previous");
    let part = ".previous"@;
    assert(part.len() == 9 && part.last() == 's');
    let d = slot_dir(dest);
    if dest.len() == 0 {
        assert(d == part);
    } else if dest.last() == '/' {
        assert((dest + part).last() == 's');
    } else {
        assert((dest + seq!['/'] + part).last() == 's');
    }
    assert(d.len() > 0 && d.last() == 's');
}

/// A slot file belongs to one slot and one slot directory: where two slots
/// under two destinations have the same path, they are the same slot and
/// their slot directories are the same. In particular, different slots
/// under one destination are kept in different files.
pub proof fn lemma_slot_paths_identify(d1: Seq<char>, s1: Slot, d2: Seq<char>, s2: Slot)
    requires
        slot_path(d1, s1) == slot_path(d2, s2),
    ensures
        s1 == s2,
        slot_dir(d1) == slot_dir(d2),
{
    lemma_slot_path_shape(d1, s1);
    lemma_slot_path_shape(d2, s2);
    lemma_filename_shape(s1);
    lemma_filename_shape(s2);
    let p = slot_path(d1, s1);
    let f1 = slot_filename(s1);
    let f2 = slot_filename(s2);
    let a1 = slot_dir(d1);
    let a2 = slot_dir(d2);
    let n = p.len();
    if f1.len() < f2.len() {
        let k = n - f1.len() - 1;
        assert(p[k] == '/');
        assert(p[k] == f2[k - a2.len() - 1]);
    } else if f2.len() < f1.len() {
        let k = n - f2.len() - 1;
        assert(p[k] == '/');
        assert(p[k] == f1[k - a1.len() - 1]);
    }
    assert(f1.len() == f2.len());
    assert(s1 == s2);
    assert(a1 =~= p.subrange(0, a1.len() as int));
    assert(a2 =~= p.subrange(0, a2.len() as int));
}

/// A value read from a slot, written back to it, is read back unchanged;
/// and a value without whitespace at either end is read back as written.
pub proof fn lemma_stored_read_back(contents: Seq<char>, value: Seq<char>)
    ensures
        stored(contents) matches Some(v) ==> stored(v) == Some(v),
        value.len() > 0 && !is_white_space(value[0]) && !is_white_space(value.last()) ==> stored(
            value,
        ) == Some(value),
{
    lemma_trim_idempotent(contents);
    if value.len() > 0 && !is_white_space(value[0]) && !is_white_space(value.last()) {
        lemma_trim_of_untrimmed(value);
    }
}

} // verus!
