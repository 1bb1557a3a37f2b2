//! Command history: a front-loaded deque of past commands, bounded in size,
//! with a navigation cursor for stepping backward and forward.

use std::collections::VecDeque;
use vstd::prelude::*;
use vstd::string::StrSliceExecFns;
use crate::input::is_whitespace_char;
use crate::input::is_whitespace_char_exec;

verus! {

/// Default maximum number of history entries to keep.
pub const DEFAULT_MAX_HISTORY: usize = 500;

/// A command that is all whitespace (or empty) and is therefore never added
/// to the history.
pub open spec fn is_blank(s: Seq<char>) -> bool {
    forall|k: int| 0 <= k < s.len() ==> is_whitespace_char(s[k])
}

/// The lowercase form of a string, as `str::to_lowercase` computes it; the
/// result depends on the characters alone.
pub uninterp spec fn lower_of(s: Seq<char>) -> Seq<char>;

/// `needle` occurs contiguously in `hay`.
pub open spec fn contains_seq(hay: Seq<char>, needle: Seq<char>) -> bool {
    exists|i: int|
        0 <= i <= hay.len() - needle.len() && #[trigger] hay.subrange(i, i + needle.len() as int)
            == needle
}

/// Whether a stored command matches a search query: its lowercase form
/// contains the query's lowercase form.
pub open spec fn search_matches(cmd: Seq<char>, query: Seq<char>) -> bool {
    contains_seq(lower_of(cmd), lower_of(query))
}

/// The cursor position `previous` moves to: the newest entry when no cursor
/// is set, one step older otherwise, saturating at the oldest entry.
pub open spec fn back_position(pos: Option<usize>, len: int) -> int {
    match pos {
        None => 0,
        Some(p) => if p + 1 < len {
            p + 1
        } else {
            p as int
        },
    }
}

/// Relies on `str::to_lowercase`: the result is a function of the characters
/// alone.
#[verifier::external_body]
fn to_lowercase(s: &str) -> (r: String)
    ensures
        r@ == lower_of(s@),
{
    s.to_lowercase()
}

fn is_blank_exec(s: &str) -> (r: bool)
    ensures
        r == is_blank(s@),
{
    let n = s.unicode_len();
    let mut i: usize = 0;
    while i < n
        invariant
            i <= n,
            n == s@.len(),
            forall|k: int| 0 <= k < i ==> is_whitespace_char(s@[k]),
        decreases n - i,
    {
        if !is_whitespace_char_exec(s.get_char(i)) {
            assert(!is_blank(s@));
            return false;
        }
        i = i + 1;
    }
    true
}

fn contains_str(hay: &str, needle: &str) -> (r: bool)
    ensures
        r == contains_seq(hay@, needle@),
{
    let n = hay.unicode_len();
    let m = needle.unicode_len();
    if m > n {
        return false;
    }
    if m == 0 {
        assert(hay@.subrange(0, 0 + needle@.len() as int) =~= needle@);
        assert(contains_seq(hay@, needle@));
        return true;
    }
    let mut i: usize = 0;
    while i <= n - m
        invariant
            0 < m <= n,
            n == hay@.len(),
            m == needle@.len(),
            i <= n - m + 1,
            forall|j: int|
                0 <= j < i ==> #[trigger] hay@.subrange(j, j + m as int) != needle@,
        decreases n - m - i + 1,
    {
        let mut k: usize = 0;
        let mut all_eq = true;
        while all_eq && k < m
            invariant
                k <= m,
                m <= n,
                i <= n - m,
                n == hay@.len(),
                m == needle@.len(),
                all_eq ==> forall|j: int| 0 <= j < k ==> hay@[i + j] == needle@[j],
                !all_eq ==> hay@.subrange(i as int, i as int + m as int) != needle@,
            decreases m - k + (if all_eq { 1int } else { 0int }),
        {
            if hay.get_char(i + k) != needle.get_char(k) {
                all_eq = false;
                proof {
                    if hay@.subrange(i as int, i as int + m as int) == needle@ {
                        assert(hay@.subrange(i as int, i as int + m as int)[k as int]
                            == needle@[k as int]);
                        assert(false);
                    }
                }
            } else {
                k = k + 1;
            }
        }
        if all_eq {
            assert(hay@.subrange(i as int, i as int + m as int) =~= needle@);
            assert(contains_seq(hay@, needle@));
            return true;
        }
        i = i + 1;
    }
    false
}

/// Command history manager.
///
/// `commands` holds the most recent command first. Navigation moves a cursor
/// over it: `previous` steps toward older entries, `next` back toward newer
/// ones, and stepping past the newest entry clears the cursor.
pub struct History {
    /// The command history, most recent first.
    pub commands: VecDeque<String>,
    /// Maximum number of history entries to keep.
    max_history: usize,
    /// Current position when navigating history.
    current_position: Option<usize>,
}

impl History {
    /// The stored commands, most recent first.
    pub closed spec fn commands_spec(self) -> Seq<Seq<char>> {
        self.commands.deep_view()
    }

    /// The bound on the number of stored commands.
    pub closed spec fn max_history_spec(self) -> usize {
        self.max_history
    }

    /// The navigation cursor, if any.
    pub closed spec fn position_spec(self) -> Option<usize> {
        self.current_position
    }

    /// Structural invariant: the history never exceeds its bound and the
    /// cursor, when set, points at a stored command.
    pub open spec fn wf(self) -> bool {
        &&& self.commands_spec().len() <= self.max_history_spec()
        &&& match self.position_spec() {
            Some(p) => (p as int) < self.commands_spec().len(),
            None => true,
        }
    }
}

impl Default for History {
    fn default() -> (r: Self)
        ensures
            r.wf(),
            r.commands_spec() == Seq::<Seq<char>>::empty(),
            r.max_history_spec() == DEFAULT_MAX_HISTORY,
            r.position_spec() is None,
    {
        History {
            commands: VecDeque::new(),
            max_history: DEFAULT_MAX_HISTORY,
            current_position: None,
        }
    }
}

impl History {
    /// Create a new history manager with default settings.
    pub fn new() -> (r: Self)
        ensures
            r.wf(),
            r.commands_spec() == Seq::<Seq<char>>::empty(),
            r.max_history_spec() == DEFAULT_MAX_HISTORY,
            r.position_spec() is None,
    {
        Self::default()
    }

    /// Create a new history manager with a custom bound.
    pub fn with_max_history(max_history: usize) -> (r: Self)
        ensures
            r.wf(),
            r.commands_spec() == Seq::<Seq<char>>::empty(),
            r.max_history_spec() == max_history,
            r.position_spec() is None,
    {
        History { commands: VecDeque::new(), max_history, current_position: None }
    }

    /// Install a saved command list as it was persisted, most recent first.
    /// Nothing is trimmed here; the bound applies from the next `add` on.
    pub fn from_parts(commands: VecDeque<String>, max_history: usize) -> (r: Self)
        ensures
            r.commands_spec() == commands.deep_view(),
            r.max_history_spec() == max_history,
            r.position_spec() is None,
    {
        History { commands, max_history, current_position: None }
    }

    /// Add a command to the history.
    ///
    /// Blank commands and duplicates of the most recent entry are ignored.
    /// Otherwise the command goes to the front, the oldest entries fall off
    /// past the bound, and the navigation cursor resets.
    pub fn add(&mut self, command: String)
        ensures
            final(self).max_history_spec() == old(self).max_history_spec(),
            (is_blank(command@) || (old(self).commands_spec().len() > 0 && old(
                self,
            ).commands_spec()[0] == command@)) ==> *final(self) == *old(self),
            !(is_blank(command@) || (old(self).commands_spec().len() > 0 && old(
                self,
            ).commands_spec()[0] == command@)) ==> {
                let pre = seq![command@] + old(self).commands_spec();
                &&& final(self).commands_spec() == if pre.len() <= old(self).max_history_spec() {
                    pre
                } else {
                    pre.subrange(0, old(self).max_history_spec() as int)
                }
                &&& final(self).position_spec() is None
            },
    {
        if is_blank_exec(command.as_str()) {
            return ;
        }
        if self.commands.len() > 0 && *&self.commands[0] == command {
            proof {
                assert(old(self).commands_spec()[0] == command@);
            }
            return ;
        }
        proof {
            assert(!(old(self).commands_spec().len() > 0 && old(self).commands_spec()[0]
                == command@)) by {
                if old(self).commands_spec().len() > 0 && old(self).commands_spec()[0]
                    == command@ {
                    assert(old(self).commands@[0]@ == command@);
                }
            }
        }

        self.commands.push_front(command);

        let ghost pre = self.commands.deep_view();
        while self.commands.len() > self.max_history
            invariant
                self.max_history == old(self).max_history,
                self.current_position == old(self).current_position,
                self.commands.deep_view() == if pre.len() <= self.max_history {
                    pre
                } else {
                    pre.subrange(0, self.commands@.len() as int)
                },
                self.commands@.len() <= pre.len(),
                pre.len() > self.max_history ==> self.commands@.len() >= self.max_history,
            decreases self.commands@.len(),
    {
            let ghost before = self.commands.deep_view();
            self.commands.pop_back();
            proof {
                assert(self.commands.deep_view() =~= before.subrange(
                    0,
                    before.len() as int - 1,
                ));
                if pre.len() > self.max_history {
                    assert(self.commands.deep_view() =~= pre.subrange(
                        0,
                        self.commands@.len() as int,
                    ));
                }
            }
        }
        self.current_position = None;
        proof {
            assert(pre =~= seq![command@] + old(self).commands_spec());
            if pre.len() <= self.max_history {
                assert(final(self).commands_spec() == pre);
            }
        }
    }

    /// Get the previous command in history (moving backward, toward older
    /// entries). The cursor lands on the newest entry first and saturates at
    /// the oldest.
    pub fn previous(&mut self) -> (r: Option<&String>)
        ensures
            final(self).commands_spec() == old(self).commands_spec(),
            final(self).max_history_spec() == old(self).max_history_spec(),
            old(self).commands_spec().len() == 0 ==> r is None && final(self).position_spec()
                == old(self).position_spec(),
            old(self).commands_spec().len() > 0 ==> {
                let np = back_position(old(self).position_spec(), old(
                    self,
                ).commands_spec().len() as int);
                &&& final(self).position_spec() == Some(np as usize)
                &&& (0 <= np < old(self).commands_spec().len() ==> r is Some && r->0@ == old(
                    self,
                ).commands_spec()[np])
                &&& (np >= old(self).commands_spec().len() ==> r is None)
            },
    {
        let len = self.commands.len();
        if len == 0 {
            return None;
        }
        let new_pos: usize = match self.current_position {
            None => 0,
            Some(pos) => if pos < usize::MAX && pos + 1 < len {
                pos + 1
            } else {
                pos
            },
        };
        self.current_position = Some(new_pos);
        if new_pos < len {
            Some(&self.commands[new_pos])
        } else {
            None
        }
    }

    /// Get the next command in history (moving forward, toward newer
    /// entries). Stepping past the newest entry clears the cursor.
    pub fn next(&mut self) -> (r: Option<&String>)
        ensures
            final(self).commands_spec() == old(self).commands_spec(),
            final(self).max_history_spec() == old(self).max_history_spec(),
            match old(self).position_spec() {
                None => r is None && final(self).position_spec() is None,
                Some(p) => if p == 0 {
                    r is None && final(self).position_spec() is None
                } else {
                    &&& final(self).position_spec() == Some((p - 1) as usize)
                    &&& (((p - 1) as int) < old(self).commands_spec().len() ==> r is Some && r->0@
                        == old(self).commands_spec()[p - 1])
                    &&& (((p - 1) as int) >= old(self).commands_spec().len() ==> r is None)
                },
            },
    {
        match self.current_position {
            Some(pos) => {
                if pos == 0 {
                    self.current_position = None;
                    None
                } else {
                    let new_pos = pos - 1;
                    self.current_position = Some(new_pos);
                    if new_pos < self.commands.len() {
                        Some(&self.commands[new_pos])
                    } else {
                        None
                    }
                }
            },
            None => None,
        }
    }

    /// Reset the history navigation position.
    pub fn reset_position(&mut self)
        ensures
            final(self).commands_spec() == old(self).commands_spec(),
            final(self).max_history_spec() == old(self).max_history_spec(),
            final(self).position_spec() is None,
    {
        self.current_position = None;
    }

    /// Set the maximum history size; entries beyond it fall off the back.
    pub fn set_max_history(&mut self, max_history: usize)
        ensures
            final(self).max_history_spec() == max_history,
            final(self).position_spec() == old(self).position_spec(),
            final(self).commands_spec() == if old(self).commands_spec().len() <= max_history {
                old(self).commands_spec()
            } else {
                old(self).commands_spec().subrange(0, max_history as int)
            },
    {
        self.max_history = max_history;
        let ghost pre = self.commands.deep_view();
        while self.commands.len() > self.max_history
            invariant
                self.max_history == max_history,
                self.current_position == old(self).current_position,
                self.commands.deep_view() == if pre.len() <= max_history {
                    pre
                } else {
                    pre.subrange(0, self.commands@.len() as int)
                },
                self.commands@.len() <= pre.len(),
                pre.len() > max_history ==> self.commands@.len() >= max_history,
            decreases self.commands@.len(),
    {
            let ghost before = self.commands.deep_view();
            self.commands.pop_back();
            proof {
                assert(self.commands.deep_view() =~= before.subrange(
                    0,
                    before.len() as int - 1,
                ));
                if pre.len() > max_history {
                    assert(self.commands.deep_view() =~= pre.subrange(
                        0,
                        self.commands@.len() as int,
                    ));
                }
            }
        }
    }

    /// Get a specific command by index (0 is the most recent).
    pub fn get(&self, index: usize) -> (r: Option<&String>)
        ensures
            r is Some <==> (index as int) < self.commands_spec().len(),
            r is Some ==> r->0@ == self.commands_spec()[index as int],
    {
        if index < self.commands.len() {
            Some(&self.commands[index])
        } else {
            None
        }
    }

    /// The current bound on the number of stored commands.
    pub fn max_history(&self) -> (r: usize)
        ensures
            r == self.max_history_spec(),
    {
        self.max_history
    }

    /// Get the number of commands in history.
    pub fn len(&self) -> (r: usize)
        ensures
            r == self.commands_spec().len(),
    {
        self.commands.len()
    }

    /// Check if history is empty.
    pub fn is_empty(&self) -> (r: bool)
        ensures
            r == (self.commands_spec().len() == 0),
    {
        self.commands.len() == 0
    }

    /// Search for commands whose lowercase form contains the lowercase
    /// query, in stored order.
    pub fn search(&self, query: &str) -> (r: Vec<String>)
        ensures
            r.deep_view() == self.commands_spec().filter(
                |c: Seq<char>| search_matches(c, query@),
            ),
    {
        let q = to_lowercase(query);
        let mut r: Vec<String> = Vec::new();
        let n = self.commands.len();
        let mut i: usize = 0;
        proof {
            reveal(Seq::filter);
            assert(self.commands_spec().take(0) =~= Seq::<Seq<char>>::empty());
            assert(r.deep_view() =~= self.commands_spec().take(0).filter(
                |c: Seq<char>| search_matches(c, query@),
            ));
        }
        while i < n
            invariant
                i <= n,
                n == self.commands_spec().len(),
                q@ == lower_of(query@),
                r.deep_view() == self.commands_spec().take(i as int).filter(
                    |c: Seq<char>| search_matches(c, query@),
                ),
            decreases n - i,
    {
            let lc = to_lowercase(self.commands[i].as_str());
            let ghost prev_view = r.deep_view();
            if contains_str(lc.as_str(), q.as_str()) {
                r.push(self.commands[i].clone());
                proof {
                    assert(r.deep_view() =~= prev_view.push(self.commands_spec()[i as int]));
                }
            }
            proof {
                reveal(Seq::filter);
                let pred = |c: Seq<char>| search_matches(c, query@);
                let taken = self.commands_spec().take(i as int + 1);
                assert(taken.drop_last() =~= self.commands_spec().take(i as int));
                assert(taken.last() == self.commands_spec()[i as int]);
                assert(r.deep_view() =~= taken.filter(pred));
            }
            i = i + 1;
        }
        proof {
            assert(self.commands_spec().take(n as int) =~= self.commands_spec());
        }
        r
    }
}

} // verus!
