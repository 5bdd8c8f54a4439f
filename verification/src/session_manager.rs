//! The sessions that have been recorded, newest first.

use vstd::multiset::Multiset;
use vstd::prelude::*;
use vstd::seq_lib::to_multiset_insert;
use vstd::string::StrSliceExecFns;

verus! {

/// `a` comes no later than `b` in the order of the dictionary, where the
/// characters go by their code.
pub open spec fn text_le(a: Seq<char>, b: Seq<char>) -> bool
    decreases a.len(),
{
    if a.len() == 0 {
        true
    } else if b.len() == 0 {
        false
    } else if a[0] != b[0] {
        (a[0] as int) < (b[0] as int)
    } else {
        text_le(a.drop_first(), b.drop_first())
    }
}

/// Of two texts, one comes no later than the other.
pub proof fn lemma_text_le_total(a: Seq<char>, b: Seq<char>)
    ensures
        text_le(a, b) || text_le(b, a),
    decreases a.len(),
{
    if a.len() > 0 && b.len() > 0 {
        if a[0] == b[0] {
            lemma_text_le_total(a.drop_first(), b.drop_first());
        } else {
            assert(a[0] as int != b[0] as int);
        }
    }
}

/// What comes no later than something that comes no later than a third
/// comes no later than the third.
pub proof fn lemma_text_le_transitive(a: Seq<char>, b: Seq<char>, c: Seq<char>)
    requires
        text_le(a, b),
        text_le(b, c),
    ensures
        text_le(a, c),
    decreases a.len(),
{
    if a.len() > 0 && b.len() > 0 && c.len() > 0 && a[0] == b[0] && b[0] == c[0] {
        lemma_text_le_transitive(a.drop_first(), b.drop_first(), c.drop_first());
    }
}

/// `text_le` computed.
pub fn comes_no_later(a: &str, b: &str) -> (result: bool)
    ensures
        result == text_le(a@, b@),
{
    let a_len: usize = a.unicode_len();
    let b_len: usize = b.unicode_len();
    let mut i: usize = 0;
    proof {
        assert(a@.skip(0) =~= a@);
        assert(b@.skip(0) =~= b@);
    }
    loop
        invariant
            i <= a_len,
            i <= b_len,
            a_len == a@.len(),
            b_len == b@.len(),
            text_le(a@, b@) == text_le(a@.skip(i as int), b@.skip(i as int)),
        decreases a_len - i,
    {
        if i == a_len {
            return true;
        }
        if i == b_len {
            return false;
        }
        let in_a: char = a.get_char(i);
        let in_b: char = b.get_char(i);
        if in_a != in_b {
            return (in_a as u32) < (in_b as u32);
        }
        proof {
            assert(a@.skip(i as int).drop_first() == a@.skip(i + 1));
            assert(b@.skip(i as int).drop_first() == b@.skip(i + 1));
        }
        i = i + 1;
    }
}

/// Every directory comes no earlier in the order of the dictionary than
/// all that follow it.
pub open spec fn is_newest_first(dirs: Seq<String>) -> bool {
    forall|i: int, j: int| 0 <= i < j < dirs.len() ==> text_le(dirs[j]@, dirs[i]@)
}

/// The place of a session in the list of all sessions.
#[derive(Clone, Copy, Debug, PartialEq, Eq, Structural)]
pub struct SessionIdentifier(pub usize);

/// The directories of all sessions, the last in the order of the
/// dictionary first. A session is named after the time at which it began,
/// so that is the newest.
#[derive(Debug)]
pub struct SessionManager {
    pub dirs: Vec<String>,
}

impl SessionManager {
    /// A manager of the sessions that live in `dirs`.
    pub fn new(dirs: Vec<String>) -> (manager: SessionManager)
        ensures
            is_newest_first(manager.dirs@),
            manager.dirs@.to_multiset() == dirs@.to_multiset(),
            manager.dirs@.len() == dirs@.len(),
    {
        let mut sorted: Vec<String> = Vec::new();
        let mut i: usize = 0;
        proof {
            assert(dirs@.take(0) =~= Seq::empty());
        }
        while i < dirs.len()
            invariant
                i <= dirs.len(),
                is_newest_first(sorted@),
                sorted@.to_multiset() == dirs@.take(i as int).to_multiset(),
                sorted@.len() == i,
            decreases dirs.len() - i,
        {
            let dir: String = dirs[i].clone();
            let mut pos: usize = 0;
            while pos < sorted.len() && comes_no_later(dir.as_str(), sorted[pos].as_str())
                invariant
                    pos <= sorted.len(),
                    forall|k: int| 0 <= k < pos ==> text_le(dir@, #[trigger] sorted@[k]@),
                decreases sorted.len() - pos,
            {
                pos = pos + 1;
            }
            proof {
                let before = sorted@;
                let after = before.insert(pos as int, dir);
                if pos < before.len() {
                    lemma_text_le_total(dir@, before[pos as int]@);
                }
                assert forall|a: int, b: int| 0 <= a < b < after.len() implies text_le(
                    after[b]@,
                    after[a]@,
                ) by {
                    if b == pos {
                    } else if a == pos {
                        if b - 1 > pos {
                            lemma_text_le_transitive(
                                before[b - 1]@,
                                before[pos as int]@,
                                dir@,
                            );
                        }
                    }
                }
                to_multiset_insert(before, pos as int, dir);
                assert(dirs@.take(i + 1) =~= dirs@.take(i as int).push(dirs@[i as int]));
                vstd::seq_lib::to_multiset_build(dirs@.take(i as int), dirs@[i as int]);
            }
            sorted.insert(pos, dir);
            i = i + 1;
        }
        proof {
            assert(dirs@.take(dirs@.len() as int) == dirs@);
        }
        SessionManager { dirs: sorted }
    }

    /// Every session with its place in the list, newest first.
    pub fn iter_relative_paths_with_indices(&self) -> (sessions: Vec<(SessionIdentifier, String)>)
        ensures
            sessions@.len() == self.dirs@.len(),
            forall|i: int|
                0 <= i < sessions@.len() ==> (#[trigger] sessions@[i]) == (
                    SessionIdentifier(i as usize),
                    self.dirs@[i],
                ),
    {
        let mut sessions: Vec<(SessionIdentifier, String)> = Vec::new();
        let mut index: usize = 0;
        while index < self.dirs.len()
            invariant
                index <= self.dirs.len(),
                sessions@.len() == index,
                forall|i: int|
                    0 <= i < index ==> (#[trigger] sessions@[i]) == (
                        SessionIdentifier(i as usize),
                        self.dirs@[i],
                    ),
            decreases self.dirs.len() - index,
        {
            sessions.push((SessionIdentifier(index), self.dirs[index].clone()));
            index = index + 1;
        }
        sessions
    }
}

} // verus!
