//! The block list of one server: the names that are banned on arrival, in
//! the order in which they were added.

use crate::format::{join_lines, lines, split_lines, NEWLINE};
use vstd::prelude::*;

verus! {

/// `String::push` of the standard library. Trusted: afterwards the string
/// holds what it held before, followed by the one character pushed.
pub assume_specification[ String::push ](string: &mut String, ch: char)
    ensures
        final(string)@ == old(string)@.push(ch),
;

/// How an attempt to add a name to a block list ended.
#[derive(Clone, Copy, Debug, PartialEq, Eq, Structural)]
pub enum AppendStatus {
    /// The name was not on the list and now is its last entry.
    Added,
    /// The name was on the list already; the list is unchanged.
    AlreadyPresent,
}

/// The list with `name` on it: unchanged where it holds the name already,
/// else with the name as its new last entry.
pub open spec fn appended(names: Seq<Seq<char>>, name: Seq<char>) -> Seq<Seq<char>> {
    if names.contains(name) {
        names
    } else {
        names.push(name)
    }
}

/// What adding `name` to the list reports.
pub open spec fn append_status(names: Seq<Seq<char>>, name: Seq<char>) -> AppendStatus {
    if names.contains(name) {
        AppendStatus::AlreadyPresent
    } else {
        AppendStatus::Added
    }
}

impl AppendStatus {
    /// The sentence that tells the invoker how adding `name` ended.
    pub open spec fn message_for(self, name: Seq<char>) -> Seq<char> {
        match self {
            AppendStatus::Added => name + " was successfully added to the banlist"@,
            AppendStatus::AlreadyPresent => name + " is already on the ban list"@,
        }
    }

    /// Builds the sentence that tells the invoker how adding `name` ended.
    pub fn message(&self, name: &str) -> (text: String)
        ensures
            text@ == self.message_for(name@),
    {
        let mut text = name.to_owned();
        match self {
            AppendStatus::Added => text.append(" was successfully added to the banlist"),
            AppendStatus::AlreadyPresent => text.append(" is already on the ban list"),
        }
        text
    }
}

/// An ordered list of names. Its view is the sequence of the names, each as
/// the sequence of its characters.
#[derive(Debug)]
pub struct BlockList {
    names: Vec<String>,
}

impl View for BlockList {
    type V = Seq<Seq<char>>;

    closed spec fn view(&self) -> Seq<Seq<char>> {
        self.names.deep_view()
    }
}

impl BlockList {
    /// Whether no name stands twice on the list. A list that starts empty
    /// and grows by `append` alone is always so; one that was read from a
    /// text is so if no line of the text occurs twice.
    pub open spec fn distinct(&self) -> bool {
        self@.no_duplicates()
    }

    /// The list on which nobody stands.
    pub fn new() -> (list: BlockList)
        ensures
            list@ == Seq::<Seq<char>>::empty(),
            list.distinct(),
    {
        let list = BlockList { names: Vec::new() };
        assert(list@ =~= Seq::empty());
        list
    }

    /// The number of names on the list.
    pub fn len(&self) -> (n: usize)
        ensures
            n == self@.len(),
    {
        self.names.len()
    }

    /// The names on the list, in their order.
    pub fn names(&self) -> (names: &Vec<String>)
        ensures
            names.deep_view() == self@,
    {
        &self.names
    }

    /// Whether `name` is on the list: an exact, case-sensitive comparison
    /// with each entry in turn.
    pub fn contains(&self, name: &str) -> (found: bool)
        ensures
            found == self@.contains(name@),
    {
        let wanted = name.to_owned();
        let mut i: usize = 0;
        while i < self.names.len()
            invariant
                i <= self.names.len(),
                wanted@ == name@,
                forall|k: int| 0 <= k < i ==> self@[k] != name@,
            decreases self.names.len() - i,
        {
            if self.names[i] == wanted {
                assert(self@[i as int] == name@);
                return true;
            }
            i += 1;
        }
        false
    }

    /// Puts `name` on the list unless it is there already, and says which of
    /// the two happened. A new name becomes the last entry; the entries that
    /// were there keep their places.
    pub fn append(&mut self, name: &str) -> (status: AppendStatus)
        ensures
            status == append_status(old(self)@, name@),
            final(self)@ == appended(old(self)@, name@),
            old(self).distinct() ==> final(self).distinct(),
    {
        proof {
            if self.distinct() {
                lemma_append_keeps_distinct(self@, name@);
            }
        }
        if self.contains(name) {
            AppendStatus::AlreadyPresent
        } else {
            self.names.push(name.to_owned());
            assert(self@ =~= old(self)@.push(name@));
            AppendStatus::Added
        }
    }

    /// Reads a list from the text of a record: one name per line, a newline
    /// between each two lines; a newline after the last name is allowed.
    pub fn parse(text: &str) -> (list: BlockList)
        ensures
            list@ == lines(text@),
    {
        let mut names: Vec<String> = Vec::new();
        let mut current = String::new();
        for c in it: text.chars()
            invariant
                it.seq() == text@,
                names.deep_view().push(current@) =~= split_lines(text@.take(it.index())),
        {
            proof {
                assert(text@.take(it.index() + 1).drop_last() =~= text@.take(it.index()));
                assert(names.deep_view().push(current@).drop_last() =~= names.deep_view());
            }
            if c == NEWLINE {
                let ghost before = names.deep_view();
                names.push(current);
                current = String::new();
                assert(names.deep_view() =~= before.push(split_lines(text@.take(it.index())).last()));
            } else {
                current.push(c);
            }
        }
        proof {
            assert(text@.take(text@.len() as int) =~= text@);
            assert(names.deep_view().push(current@).drop_last() =~= names.deep_view());
        }
        if !current.as_str().is_empty() {
            let ghost before = names.deep_view();
            names.push(current);
            assert(names.deep_view() =~= before.push(current@));
        }
        BlockList { names }
    }

    /// Writes the list as the text of a record: the names in order, with a
    /// newline between each two neighbours.
    pub fn render(&self) -> (text: String)
        ensures
            text@ == join_lines(self@),
    {
        let mut text = String::new();
        let mut i: usize = 0;
        while i < self.names.len()
            invariant
                i <= self.names.len(),
                text@ == join_lines(self@.take(i as int)),
            decreases self.names.len() - i,
        {
            proof {
                assert(self@.take(i + 1).drop_last() =~= self@.take(i as int));
            }
            if i > 0 {
                text.push(NEWLINE);
            }
            text.append(self.names[i].as_str());
            assert(text@ =~= join_lines(self@.take(i + 1)));
            i += 1;
        }
        proof {
            assert(self@.take(self@.len() as int) =~= self@);
        }
        text
    }
}

/// How often `name` stands on the list.
pub open spec fn occurrences(names: Seq<Seq<char>>, name: Seq<char>) -> nat
    decreases names.len(),
{
    if names.len() == 0 {
        0
    } else {
        occurrences(names.drop_last(), name) + if names.last() == name {
            1nat
        } else {
            0nat
        }
    }
}

/// A name stands on the list zero times exactly when the list does not
/// contain it.
pub proof fn lemma_occurrences_zero(names: Seq<Seq<char>>, name: Seq<char>)
    ensures
        occurrences(names, name) == 0 <==> !names.contains(name),
    decreases names.len(),
{
    if names.len() > 0 {
        let front = names.drop_last();
        lemma_occurrences_zero(front, name);
        if names.contains(name) {
            let i = choose|i: int| 0 <= i < names.len() && names[i] == name;
            if i < front.len() {
                assert(front[i] == name);
            }
        }
        if front.contains(name) {
            let i = choose|i: int| 0 <= i < front.len() && front[i] == name;
            assert(names[i] == name);
        }
        if names.last() == name {
            assert(names[names.len() - 1] == name);
        }
    }
}

/// On a list without a name that occurs twice, no name stands more than
/// once.
pub proof fn lemma_distinct_occurrences(names: Seq<Seq<char>>, name: Seq<char>)
    requires
        names.no_duplicates(),
    ensures
        occurrences(names, name) <= 1,
    decreases names.len(),
{
    if names.len() > 0 {
        let front = names.drop_last();
        lemma_distinct_occurrences(front, name);
        if names.last() == name {
            lemma_occurrences_zero(front, name);
            if front.contains(name) {
                let i = choose|i: int| 0 <= i < front.len() && front[i] == name;
                assert(names[i] == names[names.len() - 1]);
            }
        }
    }
}

/// A name that stood on the list at most once stands on it exactly once
/// after it was added.
pub proof fn lemma_append_once(names: Seq<Seq<char>>, name: Seq<char>)
    requires
        occurrences(names, name) <= 1,
    ensures
        occurrences(appended(names, name), name) == 1,
{
    lemma_occurrences_zero(names, name);
    if !names.contains(name) {
        assert(names.push(name).drop_last() =~= names);
    }
}

/// A list without a name that occurs twice stays so when a name is added.
pub proof fn lemma_append_keeps_distinct(names: Seq<Seq<char>>, name: Seq<char>)
    requires
        names.no_duplicates(),
    ensures
        appended(names, name).no_duplicates(),
{
}

/// After a name was added it is on the list, and adding it once more
/// changes nothing and is reported as such.
pub proof fn lemma_append_idempotent(names: Seq<Seq<char>>, name: Seq<char>)
    ensures
        appended(names, name).contains(name),
        append_status(appended(names, name), name) == AppendStatus::AlreadyPresent,
        appended(appended(names, name), name) == appended(names, name),
{
    if !names.contains(name) {
        assert(names.push(name)[names.len() as int] == name);
    }
}

} // verus!
