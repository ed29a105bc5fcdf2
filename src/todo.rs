//! The to-do list: items with stable ids, deletion by id, lookup by id, and
//! a case-insensitive text filter.

use vstd::prelude::*;
use vstd::string::*;

verus! {

/// One to-do entry.
pub struct TodoItem {
    pub id: usize,
    pub text: String,
    pub done: bool,
}

/// The to-do page: its items, the id the next new item gets, and the filter text.
pub struct Todo {
    pub next_id: usize,
    pub items: Vec<TodoItem>,
    pub filter_value: String,
}

/// The lower-case form of `s` as `str::to_lowercase` gives it.
pub uninterp spec fn lower_of(s: Seq<char>) -> Seq<char>;

/// Whether `needle` occurs in `hay` as a contiguous run.
pub open spec fn contains_seq(hay: Seq<char>, needle: Seq<char>) -> bool {
    exists|i: int|
        0 <= i && i + needle.len() <= hay.len() && #[trigger] hay.subrange(i, i + needle.len())
            == needle
}

/// Whether `item` passes the filter `filter`: its lower-cased text contains
/// the lower-cased filter.
pub open spec fn passes(item: TodoItem, filter: Seq<char>) -> bool {
    contains_seq(lower_of(item.text@), lower_of(filter))
}

/// The ids of the items of `s` that pass `filter`, in list order.
pub open spec fn filtered_ids(s: Seq<TodoItem>, filter: Seq<char>) -> Seq<usize>
    decreases s.len(),
{
    if s.len() == 0 {
        Seq::empty()
    } else {
        let rest = filtered_ids(s.drop_last(), filter);
        if passes(s.last(), filter) {
            rest.push(s.last().id)
        } else {
            rest
        }
    }
}

/// The items of `s` whose id is not in `ids`, in list order.
pub open spec fn kept(s: Seq<TodoItem>, ids: Seq<usize>) -> Seq<TodoItem>
    decreases s.len(),
{
    if s.len() == 0 {
        Seq::empty()
    } else {
        let rest = kept(s.drop_last(), ids);
        if ids.contains(s.last().id) {
            rest
        } else {
            rest.push(s.last())
        }
    }
}

/// Relies on str::to_lowercase: the result depends on the text alone.
#[verifier::external_body]
fn lowercase(s: &str) -> (r: String)
    ensures
        r@ == lower_of(s@),
{
    s.to_lowercase()
}

/// Relies on str::contains with a `&str` pattern: whether `needle` occurs in
/// `hay` as a contiguous run of characters.
#[verifier::external_body]
fn str_contains(hay: &str, needle: &str) -> (r: bool)
    ensures
        r == contains_seq(hay@, needle@),
{
    hay.contains(needle)
}

impl TodoItem {
    pub fn new(id: usize, text: String, done: bool) -> (r: Self)
        ensures
            r.id == id,
            r.text == text,
            r.done == done,
    {
        Self { id, text, done }
    }

    /// A new item with no text, not done.
    pub fn empty(id: usize) -> (r: Self)
        ensures
            r.id == id,
            r.text@.len() == 0,
            !r.done,
    {
        Self { id, text: String::new(), done: false }
    }
}

impl Todo {
    /// The page over the loaded `items`; new items get ids from the item count on.
    pub fn new(items: Vec<TodoItem>) -> (r: Self)
        ensures
            r.items == items,
            r.next_id == items@.len(),
            r.filter_value@.len() == 0,
    {
        let next_id = items.len();
        Todo { next_id, items, filter_value: String::new() }
    }

    /// Appends an empty item with the next id.
    pub fn add_item(&mut self)
        requires
            old(self).next_id < usize::MAX,
        ensures
            final(self).items@.len() == old(self).items@.len() + 1,
            final(self).items@.drop_last() == old(self).items@,
            final(self).items@.last().id == old(self).next_id,
            final(self).items@.last().text@.len() == 0,
            !final(self).items@.last().done,
            final(self).next_id == old(self).next_id + 1,
            final(self).filter_value == old(self).filter_value,
    {
        let item = TodoItem::empty(self.next_id);
        self.items.push(item);
        self.next_id = self.next_id + 1;
        assert(self.items@.drop_last() =~= old(self).items@);
    }

    /// Removes every item whose id is in `ids`, keeping the others in order.
    pub fn delete(&mut self, ids: Vec<usize>)
        ensures
            final(self).items@ == kept(old(self).items@, ids@),
            final(self).next_id == old(self).next_id,
            final(self).filter_value == old(self).filter_value,
    {
        let old_items = &self.items;
        let mut out: Vec<TodoItem> = Vec::new();
        let mut i: usize = 0;
        while i < old_items.len()
            invariant
                i <= old_items@.len(),
                old_items@ == old(self).items@,
                out@ == kept(old_items@.subrange(0, i as int), ids@),
            decreases old_items@.len() - i,
        {
            let ghost prefix = old_items@.subrange(0, i as int);
            assert(old_items@.subrange(0, i + 1).drop_last() =~= prefix);
            let id = old_items[i].id;
            let mut found = false;
            let mut j: usize = 0;
            while j < ids.len()
                invariant
                    j <= ids@.len(),
                    found <==> exists|t: int| 0 <= t < j && ids@[t] == id,
                decreases ids@.len() - j,
            {
                if ids[j] == id {
                    found = true;
                }
                j = j + 1;
            }
            assert(found == ids@.contains(id));
            if !found {
                out.push(old_items[i].clone_item());
            }
            i = i + 1;
        }
        assert(old_items@.subrange(0, old_items@.len() as int) =~= old_items@);
        self.items = out;
    }
}

impl TodoItem {
    /// A copy of the item.
    pub fn clone_item(&self) -> (r: Self)
        ensures
            r == *self,
    {
        TodoItem { id: self.id, text: self.text.clone(), done: self.done }
    }
}

/// Whether the lower-cased text `lower_text` contains the lower-cased filter
/// `lower_filter`.
pub fn matches_filter(lower_text: &str, lower_filter: &str) -> (r: bool)
    ensures
        r == contains_seq(lower_text@, lower_filter@),
{
    str_contains(lower_text, lower_filter)
}

/// The ids of the items that pass the filter `filter_value`, case
/// insensitively, in list order.
pub fn filter_items(items: &[TodoItem], filter_value: &str) -> (r: Vec<usize>)
    ensures
        r@ == filtered_ids(items@, filter_value@),
{
    let filter = lowercase(filter_value);
    let mut out: Vec<usize> = Vec::new();
    let mut i: usize = 0;
    while i < items.len()
        invariant
            i <= items@.len(),
            filter@ == lower_of(filter_value@),
            out@ == filtered_ids(items@.subrange(0, i as int), filter_value@),
        decreases items@.len() - i,
    {
        assert(items@.subrange(0, i + 1).drop_last() =~= items@.subrange(0, i as int));
        let text = lowercase(items[i].text.as_str());
        if matches_filter(text.as_str(), filter.as_str()) {
            out.push(items[i].id);
        }
        i = i + 1;
    }
    assert(items@.subrange(0, items@.len() as int) =~= items@);
    out
}

/// The index of the first item with id `id`, if any.
pub open spec fn first_with_id(s: Seq<TodoItem>, id: usize, k: int) -> bool {
    &&& 0 <= k < s.len()
    &&& s[k].id == id
    &&& forall|j: int| 0 <= j < k ==> s[j].id != id
}

/// The first item with id `id`, to be edited in place.
pub fn get_item_by_id<'a>(items: &'a mut [TodoItem], id: &'a usize) -> (r: Option<&'a mut TodoItem>)
    ensures
        r is None <==> forall|j: int| 0 <= j < old(items)@.len() ==> old(items)@[j].id != *id,
        r is None ==> final(items)@ == old(items)@,
        r matches Some(x) ==> exists|k: int|
            first_with_id(old(items)@, *id, k) && *x == old(items)@[k] && final(items)@
                == old(items)@.update(k, *final(x)),
{
    let mut k: usize = 0;
    while k < items.len()
        invariant
            k <= items@.len(),
            items@ == old(items)@,
            forall|j: int| 0 <= j < k ==> items@[j].id != *id,
        decreases items@.len() - k,
    {
        if items[k].id == *id {
            return Some(&mut items[k]);
        }
        k = k + 1;
    }
    None
}

/// The lines of `s` as `str::lines` gives them, without their line endings.
pub uninterp spec fn lines_of(s: Seq<char>) -> Seq<Seq<char>>;

/// The pieces of `s` between the occurrences of `sep`, as `str::split` gives them.
pub uninterp spec fn split_of(s: Seq<char>, sep: Seq<char>) -> Seq<Seq<char>>;

/// The separator between the fields of a stored line.
pub open spec fn field_sep() -> Seq<char> {
    seq![':', ':']
}

/// The text of a boolean.
pub open spec fn bool_text(b: bool) -> Seq<char> {
    if b {
        seq!['t', 'r', 'u', 'e']
    } else {
        seq!['f', 'a', 'l', 's', 'e']
    }
}

/// The boolean that `s` spells, if it spells one.
pub open spec fn bool_of(s: Seq<char>) -> Option<bool> {
    if s == bool_text(true) {
        Some(true)
    } else if s == bool_text(false) {
        Some(false)
    } else {
        None
    }
}

/// The state and text that a stored line's fields give: the second field is
/// the state, the third (empty where it is missing) the text. `None` where
/// the state is missing or is not a boolean.
pub open spec fn line_entry(fields: Seq<Seq<char>>) -> Option<(bool, Seq<char>)> {
    if fields.len() < 2 {
        None
    } else {
        match bool_of(fields[1]) {
            Some(done) => Some(
                (
                    done,
                    if fields.len() >= 3 {
                        fields[2]
                    } else {
                        Seq::empty()
                    },
                ),
            ),
            None => None,
        }
    }
}

/// The character of the decimal digit `d`.
pub open spec fn digit_char(d: nat) -> char {
    seq!['0', '1', '2', '3', '4', '5', '6', '7', '8', '9'][d as int]
}

/// The decimal numeral of `n`.
pub open spec fn decimal(n: nat) -> Seq<char>
    decreases n,
{
    if n < 10 {
        seq![digit_char(n)]
    } else {
        decimal(n / 10).push(digit_char(n % 10))
    }
}

/// The stored line of `item`: its id, state and text, separated, ended by a newline.
pub open spec fn stored_line(item: TodoItem) -> Seq<char> {
    decimal(item.id as nat) + field_sep() + bool_text(item.done) + field_sep() + item.text@ + seq![
        '\n',
    ]
}

/// The stored form of `s`: one line per item with text, in list order.
pub open spec fn stored(s: Seq<TodoItem>) -> Seq<char>
    decreases s.len(),
{
    if s.len() == 0 {
        Seq::empty()
    } else if s.last().text@.len() == 0 {
        stored(s.drop_last())
    } else {
        stored(s.drop_last()) + stored_line(s.last())
    }
}

/// Relies on str::lines: the lines of `s`, in order.
#[verifier::external_body]
fn text_lines(s: &str) -> (r: Vec<String>)
    ensures
        r@.len() == lines_of(s@).len(),
        forall|i: int| 0 <= i < r@.len() ==> #[trigger] r@[i]@ == lines_of(s@)[i],
{
    s.lines().map(|l| l.to_string()).collect()
}

/// Relies on str::split with a `&str` pattern: the pieces of `s` between
/// the occurrences of `sep`, in order.
#[verifier::external_body]
fn split_text(s: &str, sep: &str) -> (r: Vec<String>)
    ensures
        r@.len() == split_of(s@, sep@).len(),
        forall|i: int| 0 <= i < r@.len() ==> #[trigger] r@[i]@ == split_of(s@, sep@)[i],
{
    s.split(sep).map(|f| f.to_string()).collect()
}

/// Relies on `<bool as FromStr>::from_str`, which accepts exactly "true" and "false".
#[verifier::external_body]
fn parse_bool(s: &str) -> (r: Option<bool>)
    ensures
        r == bool_of(s@),
{
    s.parse::<bool>().ok()
}

/// Reads the stored form of a list: the item on line `i` gets id `i`, and
/// its state and text from the line's fields. `None` where a line lacks its
/// state or the state is not a boolean.
pub fn parse_items(content: &str) -> (r: Option<Vec<TodoItem>>)
    ensures
        r is Some <==> forall|i: int|
            0 <= i < lines_of(content@).len() ==> #[trigger] line_entry(
                split_of(lines_of(content@)[i], field_sep()),
            ) is Some,
        r matches Some(v) ==> {
            &&& v@.len() == lines_of(content@).len()
            &&& forall|i: int|
                0 <= i < v@.len() ==> {
                    &&& (#[trigger] v@[i]).id == i
                    &&& line_entry(split_of(lines_of(content@)[i], field_sep())) == Some(
                        (v@[i].done, v@[i].text@),
                    )
                }
        },
{
    let lines = text_lines(content);
    let sep: &str = "::";
    proof {
        reveal_strlit("::");
        assert(sep@ =~= field_sep());
    }
    let mut items: Vec<TodoItem> = Vec::new();
    let mut i: usize = 0;
    while i < lines.len()
        invariant
            i <= lines@.len(),
            sep@ == field_sep(),
            lines@.len() == lines_of(content@).len(),
            forall|j: int| 0 <= j < lines@.len() ==> #[trigger] lines@[j]@ == lines_of(content@)[j],
            items@.len() == i,
            forall|j: int|
                0 <= j < i ==> {
                    &&& (#[trigger] items@[j]).id == j
                    &&& line_entry(split_of(lines_of(content@)[j], field_sep())) == Some(
                        (items@[j].done, items@[j].text@),
                    )
                },
        decreases lines@.len() - i,
    {
        let fields = split_text(lines[i].as_str(), sep);
        assert(lines@[i as int]@ == lines_of(content@)[i as int]);
        if fields.len() < 2 {
            assert(line_entry(split_of(lines_of(content@)[i as int], field_sep())) is None);
            return None;
        }
        let done = match parse_bool(fields[1].as_str()) {
            Some(d) => d,
            None => {
                assert(line_entry(split_of(lines_of(content@)[i as int], field_sep())) is None);
                return None;
            },
        };
        let text = if fields.len() >= 3 {
            fields[2].clone()
        } else {
            String::new()
        };
        items.push(TodoItem { id: i, text, done });
        i = i + 1;
    }
    assert forall|j: int| 0 <= j < lines_of(content@).len() implies #[trigger] line_entry(
        split_of(lines_of(content@)[j], field_sep()),
    ) is Some by {
        assert(items@[j].id == j);
    }
    Some(items)
}

/// The text of the decimal digit `d`.
fn digit_str(d: usize) -> (r: &'static str)
    requires
        d < 10,
    ensures
        r@ == seq![digit_char(d as nat)],
{
    proof {
        reveal_strlit("0");
        reveal_strlit("1");
        reveal_strlit("2");
        reveal_strlit("3");
        reveal_strlit("4");
        reveal_strlit("5");
        reveal_strlit("6");
        reveal_strlit("7");
        reveal_strlit("8");
        reveal_strlit("9");
    }
    let r = if d == 0 {
        "0"
    } else if d == 1 {
        "1"
    } else if d == 2 {
        "2"
    } else if d == 3 {
        "3"
    } else if d == 4 {
        "4"
    } else if d == 5 {
        "5"
    } else if d == 6 {
        "6"
    } else if d == 7 {
        "7"
    } else if d == 8 {
        "8"
    } else {
        "9"
    };
    assert(r@ =~= seq![digit_char(d as nat)]);
    r
}

/// Appends the decimal numeral of `n` to `out`.
fn push_decimal(out: &mut String, n: usize)
    ensures
        final(out)@ == old(out)@ + decimal(n as nat),
    decreases n,
{
    if n >= 10 {
        push_decimal(out, n / 10);
    }
    out.append(digit_str(n % 10));
    proof {
        if n >= 10 {
            assert(old(out)@ + decimal((n / 10) as nat) + seq![digit_char((n % 10) as nat)]
                =~= old(out)@ + decimal(n as nat));
        } else {
            assert(old(out)@ + seq![digit_char((n % 10) as nat)] =~= old(out)@ + decimal(n as nat));
        }
    }
}

/// Writes the stored form of `items`: for each item with text, a line
/// `id::done::text`; items without text are left out.
pub fn format_items(items: &[TodoItem]) -> (r: String)
    ensures
        r@ == stored(items@),
{
    let sep: &str = "::";
    let yes: &str = "true";
    let no: &str = "false";
    let newline: &str = "\n";
    proof {
        reveal_strlit("::");
        reveal_strlit("true");
        reveal_strlit("false");
        reveal_strlit("\n");
        assert(sep@ =~= field_sep());
        assert(yes@ =~= bool_text(true));
        assert(no@ =~= bool_text(false));
        assert(newline@ =~= seq!['\n']);
    }
    let mut out = String::new();
    let mut i: usize = 0;
    while i < items.len()
        invariant
            i <= items@.len(),
            sep@ == field_sep(),
            yes@ == bool_text(true),
            no@ == bool_text(false),
            newline@ == seq!['\n'],
            out@ == stored(items@.subrange(0, i as int)),
        decreases items@.len() - i,
    {
        let ghost prefix = items@.subrange(0, i as int);
        assert(items@.subrange(0, i + 1).drop_last() =~= prefix);
        let item = &items[i];
        if !item.text.as_str().is_empty() {
            let ghost before = out@;
            push_decimal(&mut out, item.id);
            out.append(sep);
            out.append(if item.done {
                yes
            } else {
                no
            });
            out.append(sep);
            out.append(item.text.as_str());
            out.append(newline);
            assert(out@ =~= before + stored_line(*item));
        }
        i = i + 1;
    }
    assert(items@.subrange(0, items@.len() as int) =~= items@);
    out
}

} // verus!
