//! Reading the plugin's keys out of a conf node.
//!
//! Each key is searched for and, where it is there, its value is fetched. The calls
//! go to libasound; which of them is due, and what their codes mean, is decided
//! here.

use crate::alsa_plugin::config::{
    config_of, first_fault, last_value, pair_fault, pairs_view, ConfValue, ConfValueView,
};
use crate::alsa_plugin::ioplug::ENOENT;
use vstd::prelude::*;

verus! {

/// Count of the plugin's keys.
pub const KEY_COUNT: usize = 5;

/// The keys, in the order in which they are read, and whether their values are
/// texts.
pub open spec fn conf_key(i: int) -> (Seq<char>, bool) {
    if i == 0 {
        ("socket"@, true)
    } else if i == 1 {
        ("server"@, true)
    } else if i == 2 {
        ("port"@, false)
    } else if i == 3 {
        ("channels"@, false)
    } else {
        ("rate"@, false)
    }
}

/// The keys, in the order in which they are read, and whether their values are
/// texts.
pub fn conf_keys() -> (keys: Vec<(&'static str, bool)>)
    ensures
        keys@.len() == KEY_COUNT,
        forall|i: int|
            0 <= i < KEY_COUNT ==> (#[trigger] keys@[i]).0@ == conf_key(i).0 && keys@[i].1
                == conf_key(i).1,
{
    let mut keys: Vec<(&'static str, bool)> = Vec::new();
    keys.push(("socket", true));
    keys.push(("server", true));
    keys.push(("port", false));
    keys.push(("channels", false));
    keys.push(("rate", false));
    keys
}

/// What a search for a key gave.
#[derive(Debug, Clone, Copy, PartialEq, Eq, Structural)]
pub enum Search {
    /// The key is there.
    Present,
    /// The key is not there; its default counts.
    Absent,
    /// The search failed; carries the code.
    Failed(i32),
}

/// What the code of a search for a key means.
pub open spec fn search_of(code: i32) -> Search {
    if code == -ENOENT {
        Search::Absent
    } else if code < 0 {
        Search::Failed(code)
    } else {
        Search::Present
    }
}

/// What the code of a search for a key means.
pub fn search_outcome(code: i32) -> (s: Search)
    ensures
        s == search_of(code),
{
    if code == -ENOENT {
        Search::Absent
    } else if code < 0 {
        Search::Failed(code)
    } else {
        Search::Present
    }
}

/// What the code of fetching a value means: a negative code is a failure.
pub fn fetch_outcome(code: i32) -> (r: Result<(), i32>)
    ensures
        r == if code < 0 {
            Err::<(), i32>(code)
        } else {
            Ok(())
        },
{
    if code < 0 {
        Err(code)
    } else {
        Ok(())
    }
}

/// The pairs that a conf node holds, given the value of each key that was read so
/// far, where it has one.
pub open spec fn found(answers: Seq<Option<ConfValueView>>) -> Seq<(Seq<char>, ConfValueView)>
    decreases answers.len(),
{
    if answers.len() == 0 {
        Seq::empty()
    } else {
        let before = found(answers.drop_last());
        match answers.last() {
            Some(value) => before.push((conf_key(answers.len() - 1).0, value)),
            None => before,
        }
    }
}

/// Whether a value is of the type of its key.
pub open spec fn is_of_type(i: int, value: ConfValueView) -> bool {
    conf_key(i).1 <==> value is Str
}

/// Whether the values that were read are of the types of their keys.
pub open spec fn are_of_type(answers: Seq<Option<ConfValueView>>) -> bool {
    &&& answers.len() <= KEY_COUNT
    &&& forall|i: int|
        0 <= i < answers.len() ==> (#[trigger] answers[i] matches Some(v) ==> is_of_type(i, v))
}

/// A reading of a conf node.
pub struct ConfReader {
    keys: Vec<(&'static str, bool)>,
    at: usize,
    pairs: Vec<(String, ConfValue)>,
    answers: Ghost<Seq<Option<ConfValueView>>>,
}

impl View for ConfReader {
    type V = Seq<Option<ConfValueView>>;

    /// The value of each key that was read so far, where it has one.
    closed spec fn view(&self) -> Seq<Option<ConfValueView>> {
        self.answers@
    }
}

impl ConfReader {
    /// That what is kept fits together.
    pub closed spec fn is_wf(&self) -> bool {
        &&& self.keys@.len() == KEY_COUNT
        &&& forall|i: int|
            0 <= i < KEY_COUNT ==> (#[trigger] self.keys@[i]).0@ == conf_key(i).0
                && self.keys@[i].1 == conf_key(i).1
        &&& self.at == self@.len()
        &&& pairs_view(self.pairs@) == found(self@)
        &&& are_of_type(self@)
    }

    /// A reading that has not begun.
    pub fn new() -> (r: Self)
        ensures
            r.is_wf(),
            r@ == Seq::<Option<ConfValueView>>::empty(),
    {
        let r = ConfReader {
            keys: conf_keys(),
            at: 0,
            pairs: Vec::new(),
            answers: Ghost(Seq::empty()),
        };
        proof {
            assert(pairs_view(r.pairs@) =~= found(r@));
        }
        r
    }

    /// The key to search for next, and whether its value is a text; nothing, where
    /// all have been read.
    pub fn current(&self) -> (key: Option<(&'static str, bool)>)
        requires
            self.is_wf(),
        ensures
            match key {
                Some(k) => self@.len() < KEY_COUNT && k.0@ == conf_key(self@.len() as int).0
                    && k.1 == conf_key(self@.len() as int).1,
                None => self@.len() == KEY_COUNT,
            },
    {
        if self.at < self.keys.len() {
            Some(self.keys[self.at])
        } else {
            None
        }
    }

    /// Takes the code of the search for the current key. A key that is not there is
    /// passed over.
    pub fn on_search(&mut self, code: i32) -> (s: Search)
        requires
            old(self).is_wf(),
            old(self)@.len() < KEY_COUNT,
        ensures
            final(self).is_wf(),
            s == search_of(code),
            final(self)@ == if s == Search::Absent {
                old(self)@.push(None)
            } else {
                old(self)@
            },
    {
        let s = search_outcome(code);
        if let Search::Absent = s {
            let ghost answers = self@;
            self.at = self.at + 1;
            self.answers = Ghost(answers.push(None));
            proof {
                assert(answers.push(None).drop_last() =~= answers);
            }
        }
        s
    }

    /// Takes the value of the current key.
    pub fn on_value(&mut self, value: ConfValue)
        requires
            old(self).is_wf(),
            old(self)@.len() < KEY_COUNT,
            is_of_type(old(self)@.len() as int, value@),
        ensures
            final(self).is_wf(),
            final(self)@ == old(self)@.push(Some(value@)),
    {
        let ghost answers = self@;
        let ghost before = self.pairs@;
        let ghost v = value@;
        let key = self.keys[self.at].0.to_owned();
        self.pairs.push((key, value));
        self.at = self.at + 1;
        self.answers = Ghost(answers.push(Some(v)));
        proof {
            assert(answers.push(Some(v)).drop_last() =~= answers);
            assert(pairs_view(self.pairs@) =~= pairs_view(before).push(
                (conf_key(answers.len() as int).0, v),
            ));
        }
    }

    /// The pairs that were found.
    pub fn into_pairs(self) -> (pairs: Vec<(String, ConfValue)>)
        requires
            self.is_wf(),
        ensures
            pairs_view(pairs@) == found(self@),
            are_of_type(self@),
    {
        self.pairs
    }
}

proof fn lemma_keys_differ(i: int, j: int)
    requires
        0 <= i < j < KEY_COUNT,
    ensures
        conf_key(i).0 != conf_key(j).0,
{
    reveal_strlit("socket");
    reveal_strlit("server");
    reveal_strlit("port");
    reveal_strlit("channels");
    reveal_strlit("rate");
    assert("socket"@[1] == 'o' && "server"@[1] == 'e');
    assert("port"@[0] == 'p' && "rate"@[0] == 'r');
}

/// What was read of a key is what a configuration is made of: no key hides another.
pub proof fn law_each_key_keeps_its_value(answers: Seq<Option<ConfValueView>>, i: int)
    requires
        answers.len() <= KEY_COUNT,
        0 <= i < KEY_COUNT,
    ensures
        last_value(found(answers), conf_key(i).0) == if i < answers.len() {
            answers[i]
        } else {
            None
        },
    decreases answers.len(),
{
    if answers.len() > 0 {
        let before = answers.drop_last();
        let k = answers.len() - 1;
        law_each_key_keeps_its_value(before, i);
        if i < k {
            lemma_keys_differ(i, k);
        } else if k < i {
            lemma_keys_differ(k, i);
        }
        if answers.last() is Some {
            assert(found(answers).drop_last() =~= found(before));
        }
    }
}

proof fn lemma_only_invalid(answers: Seq<Option<ConfValueView>>)
    requires
        are_of_type(answers),
    ensures
        first_fault(found(answers)) matches Some(e) ==> e is Invalid,
    decreases answers.len(),
{
    if answers.len() > 0 {
        let before = answers.drop_last();
        assert(are_of_type(before)) by {
            assert forall|i: int| 0 <= i < before.len() implies (#[trigger] before[i] matches Some(
                v,
            ) ==> is_of_type(i, v)) by {
                assert(answers[i] == before[i]);
            }
        }
        lemma_only_invalid(before);
        let k = answers.len() - 1;
        assert(answers[k] == answers.last());
        if answers.last() is Some {
            assert(found(answers).drop_last() =~= found(before));
            assert(pair_fault(conf_key(k).0, answers.last()->0) matches Some(e) ==> e is Invalid)
                by {
                assert forall|j: int| 0 <= j < k implies conf_key(j).0 != conf_key(k).0 by {
                    lemma_keys_differ(j, k);
                }
                assert(k > 0 ==> conf_key(0).0 != conf_key(k).0);
                assert(k > 1 ==> conf_key(1).0 != conf_key(k).0);
                assert(k > 2 ==> conf_key(2).0 != conf_key(k).0);
            }
        }
    }
}

/// A conf node that could be read is never refused for a key that the plugin does
/// not know, nor for a value of the wrong type.
pub proof fn law_read_keys_are_known(answers: Seq<Option<ConfValueView>>)
    requires
        are_of_type(answers),
    ensures
        config_of(found(answers)) matches Err(e) ==> e is Conflict || e is Invalid,
{
    lemma_only_invalid(answers);
}

/// A search that gives 0 or more has found the key, -2 means that the key is not there,
/// and any other negative code is a failure that is passed on.
pub proof fn law_codes_of_searches(code: i32)
    ensures
        code >= 0 <==> search_of(code) == Search::Present,
        code == -2 <==> search_of(code) == Search::Absent,
        code < 0 && code != -2 <==> search_of(code) == Search::Failed(code),
{
}

/// What a conf node holds is one pair for each key that has a value, in the order in which
/// the keys are read.
pub proof fn law_pairs_are_read_in_order(
    answers: Seq<Option<ConfValueView>>,
    value: ConfValueView,
)
    ensures
        found(Seq::empty()) == Seq::<(Seq<char>, ConfValueView)>::empty(),
        found(answers.push(None)) == found(answers),
        answers.len() == 0 ==> found(answers.push(Some(value))) == found(answers).push(
            ("socket"@, value),
        ),
        answers.len() == 1 ==> found(answers.push(Some(value))) == found(answers).push(
            ("server"@, value),
        ),
        answers.len() == 2 ==> found(answers.push(Some(value))) == found(answers).push(
            ("port"@, value),
        ),
        answers.len() == 3 ==> found(answers.push(Some(value))) == found(answers).push(
            ("channels"@, value),
        ),
        answers.len() == 4 ==> found(answers.push(Some(value))) == found(answers).push(
            ("rate"@, value),
        ),
{
    assert(answers.push(None).drop_last() =~= answers);
    assert(answers.push(Some(value)).drop_last() =~= answers);
}

} // verus!
