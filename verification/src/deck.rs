//! Deck entries, and the deck list they are read from.

use vstd::prelude::*;
use vstd::string::*;
use crate::error::PipelineError;
use crate::text::{decimal, number_value, parse_number, push_decimal};

verus! {

/// What a deck entry says: one card and how many copies of it are wanted.
pub struct EntryModel {
    pub name: Seq<char>,
    pub set_code: Seq<char>,
    pub collector_number: nat,
    pub count: nat,
}

/// One line of a deck list: a card, named by its set and collector number,
/// and the number of copies wanted, which is at least 1.
pub struct DeckEntry {
    name: String,
    set_code: String,
    collector_number: usize,
    count: usize,
}

impl View for DeckEntry {
    type V = EntryModel;

    closed spec fn view(&self) -> EntryModel {
        EntryModel {
            name: self.name@,
            set_code: self.set_code@,
            collector_number: self.collector_number as nat,
            count: self.count as nat,
        }
    }
}

impl DeckEntry {
    #[verifier::type_invariant]
    spec fn inv(self) -> bool {
        self.count >= 1
    }

    /// An entry for `count` copies of a card; `None` where `count` is 0.
    pub fn new(name: String, set_code: String, collector_number: usize, count: usize) -> (made:
        Option<DeckEntry>)
        ensures
            made is Some <==> count >= 1,
            made matches Some(entry) ==> entry@ == (EntryModel {
                name: name@,
                set_code: set_code@,
                collector_number: collector_number as nat,
                count: count as nat,
            }),
    {
        if count >= 1 {
            Some(DeckEntry { name, set_code, collector_number, count })
        } else {
            None
        }
    }

    /// The card's name.
    pub fn name(&self) -> (s: &String)
        ensures
            s@ == self@.name,
    {
        &self.name
    }

    /// The code of the set that the card belongs to.
    pub fn set_code(&self) -> (s: &String)
        ensures
            s@ == self@.set_code,
    {
        &self.set_code
    }

    /// The card's number within its set.
    pub fn collector_number(&self) -> (n: usize)
        ensures
            n == self@.collector_number,
    {
        self.collector_number
    }

    /// The number of copies wanted, at least 1.
    pub fn count(&self) -> (n: usize)
        ensures
            n == self@.count,
            n >= 1,
    {
        proof {
            use_type_invariant(self);
        }
        self.count
    }

    /// The entry in one line, as `2x "Lightning Bolt" {lea}[1]`.
    pub fn describe(&self) -> (s: String)
        ensures
            s@ == described(self@),
    {
        let mut s = String::new();
        push_decimal(&mut s, self.count);
        s.append("x \"");
        s.append(self.name.as_str());
        s.append("\" {");
        s.append(self.set_code.as_str());
        s.append("}[");
        push_decimal(&mut s, self.collector_number);
        s.append("]");
        assert(s@ =~= described(self@));
        s
    }
}

/// The entry in one line: the count, `x`, the name in double quotes, the
/// set code in braces and the collector number in square brackets.
pub open spec fn described(entry: EntryModel) -> Seq<char> {
    decimal(entry.count) + "x \""@ + entry.name + "\" {"@ + entry.set_code + "}["@ + decimal(
        entry.collector_number,
    ) + "]"@
}

/// The entry that a deck list line stands for. The line is the count, a
/// space, the name, a space, the set code in round brackets, a space and the
/// collector number: the count ends at the first space, and the last two
/// spaces set off the set code and the collector number, so that the name
/// may hold spaces. Both numbers must fit the machine word, and the count
/// must be at least 1. `None` where the line is not of this form.
pub open spec fn parsed_entry(line: Seq<char>) -> Option<EntryModel> {
    match line.index_of_first(' ') {
        None => None,
        Some(i) => {
            let count_text = line.subrange(0, i);
            let rest = line.subrange(i + 1, line.len() as int);
            match rest.index_of_last(' ') {
                None => None,
                Some(j) => {
                    let number_text = rest.subrange(j + 1, rest.len() as int);
                    let head = rest.subrange(0, j);
                    match head.index_of_last(' ') {
                        None => None,
                        Some(k) => {
                            let name = head.subrange(0, k);
                            let tag = head.subrange(k + 1, head.len() as int);
                            if tag.len() >= 2 && tag.first() == '(' && tag.last() == ')' {
                                let set_code = tag.subrange(1, tag.len() - 1);
                                match (number_value(number_text), number_value(count_text)) {
                                    (Some(number), Some(count)) => if number <= usize::MAX && 1
                                        <= count <= usize::MAX {
                                        Some(
                                            EntryModel {
                                                name,
                                                set_code,
                                                collector_number: number,
                                                count,
                                            },
                                        )
                                    } else {
                                        None
                                    },
                                    _ => None,
                                }
                            } else {
                                None
                            }
                        },
                    }
                },
            }
        },
    }
}

/// The place of the first `c` in `text`.
fn find_first(text: &str, c: char) -> (found: Option<usize>)
    ensures
        found matches Some(i) ==> text@.index_of_first(c) == Some(i as int),
        found is None ==> text@.index_of_first(c) is None,
{
    let len = text.unicode_len();
    let mut i: usize = 0;
    while i < len
        invariant
            i <= len,
            len == text@.len(),
            forall|j: int| 0 <= j < i ==> text@[j] != c,
        decreases len - i,
    {
        if text.get_char(i) == c {
            proof {
                text@.index_of_first_ensures(c);
                assert(text@.contains(c));
            }
            return Some(i);
        }
        i = i + 1;
    }
    proof {
        text@.index_of_first_ensures(c);
    }
    None
}

/// The place of the last `c` in `text`.
fn find_last(text: &str, c: char) -> (found: Option<usize>)
    ensures
        found matches Some(i) ==> text@.index_of_last(c) == Some(i as int),
        found is None ==> text@.index_of_last(c) is None,
{
    let len = text.unicode_len();
    let mut i: usize = len;
    while i > 0
        invariant
            i <= len,
            len == text@.len(),
            forall|j: int| i <= j < len ==> text@[j] != c,
        decreases i,
    {
        i = i - 1;
        if text.get_char(i) == c {
            proof {
                text@.index_of_last_ensures(c);
                assert(text@.contains(c));
            }
            return Some(i);
        }
    }
    proof {
        text@.index_of_last_ensures(c);
    }
    None
}

/// Reads one deck list line. `None` where the line is malformed.
pub fn parse_line(line: &str) -> (res: Option<DeckEntry>)
    ensures
        parsed_entry(line@) matches Some(entry) ==> res is Some && res->Some_0@ == entry,
        parsed_entry(line@) is None ==> res is None,
{
    let len = line.unicode_len();
    let i = match find_first(line, ' ') {
        None => {
            return None;
        },
        Some(i) => i,
    };
    proof {
        line@.index_of_first_ensures(' ');
    }
    let count_text = line.substring_char(0, i);
    let rest = line.substring_char(i + 1, len);
    let rest_len = len - i - 1;
    let j = match find_last(rest, ' ') {
        None => {
            return None;
        },
        Some(j) => j,
    };
    proof {
        rest@.index_of_last_ensures(' ');
    }
    let number_text = rest.substring_char(j + 1, rest_len);
    let head = rest.substring_char(0, j);
    let k = match find_last(head, ' ') {
        None => {
            return None;
        },
        Some(k) => k,
    };
    proof {
        head@.index_of_last_ensures(' ');
    }
    let name = head.substring_char(0, k);
    let tag = head.substring_char(k + 1, j);
    let tag_len = j - k - 1;
    if tag_len < 2 || tag.get_char(0) != '(' || tag.get_char(tag_len - 1) != ')' {
        return None;
    }
    let set_code = tag.substring_char(1, tag_len - 1);
    let number = match parse_number(number_text) {
        None => {
            return None;
        },
        Some(number) => number,
    };
    let count = match parse_number(count_text) {
        None => {
            return None;
        },
        Some(count) => count,
    };
    DeckEntry::new(String::from_str(name), String::from_str(set_code), number, count)
}

/// What each entry of a list says.
pub open spec fn models(entries: Seq<DeckEntry>) -> Seq<EntryModel> {
    Seq::new(entries.len(), |i: int| entries[i]@)
}

/// The text of each line of a list.
pub open spec fn texts(lines: Seq<String>) -> Seq<Seq<char>> {
    Seq::new(lines.len(), |i: int| lines[i]@)
}

/// The entries that the lines of a deck list stand for, in their order.
/// Empty lines are passed over. Where a line is malformed, the result is
/// the number of the first such line, counted from 0.
pub open spec fn parsed_list(lines: Seq<Seq<char>>) -> Result<Seq<EntryModel>, nat>
    decreases lines.len(),
{
    if lines.len() == 0 {
        Ok(Seq::empty())
    } else {
        match parsed_list(lines.drop_last()) {
            Err(at) => Err(at),
            Ok(entries) => if lines.last().len() == 0 {
                Ok(entries)
            } else {
                match parsed_entry(lines.last()) {
                    Some(entry) => Ok(entries.push(entry)),
                    None => Err((lines.len() - 1) as nat),
                }
            },
        }
    }
}

/// A list that is malformed at some line is malformed at the same line
/// however it goes on.
pub proof fn lemma_parsed_list_fails_early(lines: Seq<Seq<char>>, k: int)
    requires
        0 <= k <= lines.len(),
        parsed_list(lines.take(k)) is Err,
    ensures
        parsed_list(lines) == parsed_list(lines.take(k)),
    decreases lines.len(),
{
    if k == lines.len() {
        assert(lines.take(k) =~= lines);
    } else {
        assert(lines.drop_last().take(k) =~= lines.take(k));
        lemma_parsed_list_fails_early(lines.drop_last(), k);
    }
}

/// Reads a deck list, given line by line.
pub fn parse_deck_list(lines: &Vec<String>) -> (res: Result<Vec<DeckEntry>, PipelineError>)
    ensures
        parsed_list(texts(lines@)) matches Ok(entries) ==> res is Ok && models(res->Ok_0@)
            == entries,
        parsed_list(texts(lines@)) matches Err(at) ==> res is Err && res->Err_0 == (
        PipelineError::InputFormat { line: at as usize }),
{
    let ghost all = texts(lines@);
    let mut entries: Vec<DeckEntry> = Vec::new();
    let mut i: usize = 0;
    proof {
        assert(all.take(0) =~= Seq::<Seq<char>>::empty());
        assert(models(entries@) =~= Seq::<EntryModel>::empty());
    }
    while i < lines.len()
        invariant
            i <= lines.len(),
            all == texts(lines@),
            parsed_list(all.take(i as int)) == Ok::<Seq<EntryModel>, nat>(models(entries@)),
        decreases lines.len() - i,
    {
        let line = lines[i].as_str();
        let ghost before = models(entries@);
        proof {
            assert(all.take(i + 1).drop_last() =~= all.take(i as int));
            assert(all.take(i + 1).last() == line@);
        }
        if line.unicode_len() > 0 {
            match parse_line(line) {
                None => {
                    proof {
                        lemma_parsed_list_fails_early(all, i + 1);
                    }
                    return Err(PipelineError::InputFormat { line: i });
                },
                Some(entry) => {
                    entries.push(entry);
                    proof {
                        assert(models(entries@) =~= before.push(entry@));
                    }
                },
            }
        }
        i = i + 1;
    }
    proof {
        assert(all.take(i as int) =~= all);
    }
    Ok(entries)
}

/// The number of copies that the entries ask for, all together.
pub open spec fn copies(entries: Seq<EntryModel>) -> nat
    decreases entries.len(),
{
    if entries.len() == 0 {
        0
    } else {
        copies(entries.drop_last()) + entries.last().count
    }
}

/// The first entries of a list ask for no more copies than the whole list.
pub proof fn lemma_copies_prefix(entries: Seq<EntryModel>, k: int)
    requires
        0 <= k <= entries.len(),
    ensures
        copies(entries.take(k)) <= copies(entries),
    decreases entries.len(),
{
    if k == entries.len() {
        assert(entries.take(k) =~= entries);
    } else {
        assert(entries.drop_last().take(k) =~= entries.take(k));
        lemma_copies_prefix(entries.drop_last(), k);
    }
}

/// The number of copies that the entries ask for, all together; `None`
/// where it does not fit the machine word.
pub fn total_copies(entries: &Vec<DeckEntry>) -> (total: Option<usize>)
    ensures
        copies(models(entries@)) <= usize::MAX ==> total == Some(
            copies(models(entries@)) as usize,
        ),
        copies(models(entries@)) > usize::MAX ==> total is None,
{
    let ghost all = models(entries@);
    let mut sum: usize = 0;
    let mut i: usize = 0;
    proof {
        assert(all.take(0) =~= Seq::<EntryModel>::empty());
    }
    while i < entries.len()
        invariant
            i <= entries.len(),
            all == models(entries@),
            sum == copies(all.take(i as int)),
        decreases entries.len() - i,
    {
        proof {
            assert(all.take(i + 1).drop_last() =~= all.take(i as int));
            assert(all.take(i + 1).last() == entries@[i as int]@);
            lemma_copies_prefix(all, i + 1);
        }
        sum = match sum.checked_add(entries[i].count()) {
            None => {
                return None;
            },
            Some(next) => next,
        };
        i = i + 1;
    }
    proof {
        assert(all.take(i as int) =~= all);
    }
    Some(sum)
}

} // verus!
