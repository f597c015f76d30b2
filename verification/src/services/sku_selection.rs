//! Reading which of the numbered corrections are to be applied.
use vstd::prelude::*;
use vstd::string::*;

use crate::numbers::{decimal, is_digit, lemma_decimal, natural, parse_natural};
use crate::text::{
    all_white, eq_ignoring_case, find_char, is_white, law_trim_takes_off_white_space,
    lemma_position, lemma_position_is, position, same_ignoring_case, split, split_on, texts, trim,
    trimmed,
};

verus! {

/// What is wrong with a selection, and with which part of it.
#[derive(Debug)]
pub enum SelectionError {
    InvalidRange(String),
    InvalidNumber(String),
}

/// The model of a fault of a selection.
pub enum SelectionErrorView {
    InvalidRange(Seq<char>),
    InvalidNumber(Seq<char>),
}

impl View for SelectionError {
    type V = SelectionErrorView;

    open spec fn view(&self) -> SelectionErrorView {
        match self {
            SelectionError::InvalidRange(part) => SelectionErrorView::InvalidRange(part@),
            SelectionError::InvalidNumber(part) => SelectionErrorView::InvalidNumber(part@),
        }
    }
}

impl SelectionErrorView {
    /// The message of the fault.
    pub open spec fn text(self) -> Seq<char> {
        match self {
            SelectionErrorView::InvalidRange(part) => "Invalid range: '"@ + part + "'"@,
            SelectionErrorView::InvalidNumber(part) => "Invalid number: '"@ + part + "'"@,
        }
    }
}

impl SelectionError {
    /// The message of the fault.
    pub fn message(&self) -> (message: String)
        ensures
            message@ == self@.text(),
    {
        match self {
            SelectionError::InvalidRange(part) => {
                let mut message = "Invalid range: '".to_owned();
                message.append(part.as_str());
                message.append("'");
                message
            },
            SelectionError::InvalidNumber(part) => {
                let mut message = "Invalid number: '".to_owned();
                message.append(part.as_str());
                message.append("'");
                message
            },
        }
    }
}

/// The indices below `max` that the numbers from `start` to `end`, counted
/// from one, stand for.
pub open spec fn range_indices(start: int, end: int, max: int) -> Seq<int> {
    let last = if end <= max {
        end
    } else {
        max
    };
    if start <= last {
        Seq::new((last - start + 1) as nat, |i: int| start - 1 + i)
    } else {
        seq![]
    }
}

/// The indices that one part of a selection stands for: a range or a number.
/// Numbers above `max` stand for none.
pub open spec fn part_indices(raw: Seq<char>, max: int) -> Result<Seq<int>, SelectionErrorView> {
    let part = trimmed(raw);
    match position(part, '-') {
        Some(p) => {
            let start = natural(trimmed(part.take(p)), usize::MAX as nat);
            let end = natural(trimmed(part.skip(p + 1)), usize::MAX as nat);
            match (start, end) {
                (Some(s), Some(e)) => if s < 1 || e < s {
                    Err(SelectionErrorView::InvalidRange(part))
                } else {
                    Ok(range_indices(s as int, e as int, max))
                },
                _ => Err(SelectionErrorView::InvalidRange(part)),
            }
        },
        None => match natural(part, usize::MAX as nat) {
            Some(n) => if 1 <= n <= max {
                Ok(seq![n - 1])
            } else {
                Ok(seq![])
            },
            None => Err(SelectionErrorView::InvalidNumber(part)),
        },
    }
}

/// The indices that the parts of a selection stand for, in order; the first
/// faulty part is the fault.
pub open spec fn parts_indices(parts: Seq<Seq<char>>, max: int) -> Result<
    Seq<int>,
    SelectionErrorView,
>
    decreases parts.len(),
{
    if parts.len() == 0 {
        Ok(seq![])
    } else {
        match parts_indices(parts.drop_last(), max) {
            Err(error) => Err(error),
            Ok(list) => match part_indices(parts.last(), max) {
                Err(error) => Err(error),
                Ok(more) => Ok(list + more),
            },
        }
    }
}

/// The list with every repetition of an earlier item left out.
pub open spec fn first_occurrences(list: Seq<int>) -> Seq<int>
    decreases list.len(),
{
    if list.len() == 0 {
        seq![]
    } else {
        let before = first_occurrences(list.drop_last());
        if before.contains(list.last()) {
            before
        } else {
            before.push(list.last())
        }
    }
}

/// The indices that a selection stands for, each once.
pub open spec fn selected(input: Seq<char>, max: int) -> Result<Seq<int>, SelectionErrorView> {
    match parts_indices(split_on(input, ','), max) {
        Ok(list) => Ok(first_occurrences(list)),
        Err(error) => Err(error),
    }
}

/// The model of a list of indices.
pub open spec fn indices(list: Seq<usize>) -> Seq<int> {
    list.map_values(|i: usize| i as int)
}

/// Appends the indices that one part of a selection stands for.
fn read_part(raw: &str, max_len: usize, out: &mut Vec<usize>) -> (result: Result<(), SelectionError>)
    ensures
        match result {
            Ok(_) => part_indices(raw@, max_len as int) is Ok && indices(final(out)@) == indices(
                old(out)@,
            ) + part_indices(raw@, max_len as int)->Ok_0,
            Err(error) => part_indices(raw@, max_len as int) is Err && part_indices(
                raw@,
                max_len as int,
            )->Err_0 == error@,
        },
{
    let part = trim(raw);
    match find_char(part, '-') {
        Some(p) => {
            let length = part.unicode_len();
            let left = part.substring_char(0, p);
            let right = part.substring_char(p + 1, length);
            assert(left@ =~= part@.take(p as int));
            assert(right@ =~= part@.skip(p + 1));
            let start = parse_natural(trim(left), usize::MAX as u64);
            let end = parse_natural(trim(right), usize::MAX as u64);
            match (start, end) {
                (Some(s), Some(e)) => {
                    if s < 1 || e < s {
                        return Err(SelectionError::InvalidRange(part.to_owned()));
                    }
                    let last: usize = if e <= max_len as u64 {
                        e as usize
                    } else {
                        max_len
                    };
                    let ghost wanted = range_indices(s as int, e as int, max_len as int);
                    let ghost before = indices(out@);
                    let first: usize = (s - 1) as usize;
                    let mut n: usize = first;
                    assert(before + wanted.take(0) =~= before);
                    while n < last
                        invariant
                            first + 1 == s,
                            first <= n,
                            n <= last || n == first,
                            wanted == range_indices(s as int, e as int, max_len as int),
                            last == if e <= max_len {
                                e as int
                            } else {
                                max_len as int
                            },
                            indices(out@) == before + wanted.take(n - first),
                        decreases last - n,
                    {
                        let ghost list = out@;
                        out.push(n);
                        proof {
                            assert(indices(out@) =~= indices(list).push(n as int));
                            assert(wanted[n - first] == n);
                            assert(indices(out@) =~= before + wanted.take(n - first + 1));
                        }
                        n = n + 1;
                    }
                    assert(wanted.take(n - first) =~= wanted);
                    Ok(())
                },
                _ => Err(SelectionError::InvalidRange(part.to_owned())),
            }
        },
        None => match parse_natural(part, usize::MAX as u64) {
            Some(n) => {
                let ghost list = out@;
                if n >= 1 && n <= max_len as u64 {
                    out.push((n - 1) as usize);
                    assert(indices(out@) =~= indices(list) + seq![n - 1]);
                } else {
                    assert(indices(out@) =~= indices(list) + Seq::<int>::empty());
                }
                Ok(())
            },
            None => Err(SelectionError::InvalidNumber(part.to_owned())),
        },
    }
}

proof fn lemma_parts_stay_faulty(parts: Seq<Seq<char>>, max: int, n: int)
    requires
        0 <= n <= parts.len(),
        parts_indices(parts.take(n), max) is Err,
    ensures
        parts_indices(parts, max) == parts_indices(parts.take(n), max),
    decreases parts.len() - n,
{
    if n == parts.len() {
        assert(parts.take(n) =~= parts);
    } else {
        assert(parts.take(n + 1).drop_last() =~= parts.take(n));
        lemma_parts_stay_faulty(parts, max, n + 1);
    }
}

/// Whether the list holds the index.
fn holds_index(list: &Vec<usize>, index: usize) -> (yes: bool)
    ensures
        yes == indices(list@).contains(index as int),
{
    for i in 0..list.len()
        invariant
            forall|j: int| 0 <= j < i ==> #[trigger] indices(list@)[j] != index,
    {
        if list[i] == index {
            assert(indices(list@)[i as int] == index);
            return true;
        }
    }
    false
}

/// The list with every repetition of an earlier item left out.
fn drop_repetitions(list: &Vec<usize>) -> (out: Vec<usize>)
    ensures
        indices(out@) == first_occurrences(indices(list@)),
{
    let mut out: Vec<usize> = Vec::new();
    let ghost model = indices(list@);
    assert(indices(out@) =~= first_occurrences(model.take(0)));
    for i in 0..list.len()
        invariant
            model == indices(list@),
            indices(out@) == first_occurrences(model.take(i as int)),
    {
        assert(model.take(i + 1).drop_last() =~= model.take(i as int));
        assert(model.take(i + 1).last() == list@[i as int]);
        let ghost before = out@;
        if !holds_index(&out, list[i]) {
            out.push(list[i]);
            assert(indices(out@) =~= indices(before).push(list@[i as int] as int));
        }
    }
    assert(model.take(list.len() as int) =~= model);
    out
}

/// The indices that a selection stands for, each once: numbers and ranges of
/// numbers, counted from one, with commas between them. Numbers above `max_len`
/// stand for none.
pub fn parse_selection(input: &str, max_len: usize) -> (result: Result<Vec<usize>, SelectionError>)
    ensures
        match result {
            Ok(list) => selected(input@, max_len as int) is Ok && selected(
                input@,
                max_len as int,
            )->Ok_0 == indices(list@),
            Err(error) => selected(input@, max_len as int) is Err && selected(
                input@,
                max_len as int,
            )->Err_0 == error@,
        },
{
    let parts = split(input, ',');
    let ghost model = split_on(input@, ',');
    let mut list: Vec<usize> = Vec::new();
    assert(indices(list@) =~= Seq::<int>::empty());
    for i in 0..parts.len()
        invariant
            texts(parts@) == model,
            model == split_on(input@, ','),
            parts_indices(model.take(i as int), max_len as int) is Ok,
            parts_indices(model.take(i as int), max_len as int)->Ok_0 == indices(list@),
    {
        assert(model.take(i + 1).drop_last() =~= model.take(i as int));
        assert(model.take(i + 1).last() == parts@[i as int]@);
        match read_part(parts[i].as_str(), max_len, &mut list) {
            Ok(_) => {},
            Err(error) => {
                proof {
                    lemma_parts_stay_faulty(model, max_len as int, i + 1);
                }
                return Err(error);
            },
        }
    }
    assert(model.take(parts.len() as int) =~= model);
    Ok(drop_repetitions(&list))
}

proof fn lemma_parts_in_bounds(parts: Seq<Seq<char>>, max: int)
    requires
        0 <= max,
    ensures
        match parts_indices(parts, max) {
            Ok(list) => forall|i: int| 0 <= i < list.len() ==> 0 <= #[trigger] list[i] < max,
            Err(_) => true,
        },
    decreases parts.len(),
{
    if parts.len() > 0 {
        lemma_parts_in_bounds(parts.drop_last(), max);
    }
}

proof fn lemma_first_occurrences(list: Seq<int>)
    ensures
        first_occurrences(list).no_duplicates(),
        forall|x: int| #[trigger] first_occurrences(list).contains(x) <==> list.contains(x),
    decreases list.len(),
{
    if list.len() > 0 {
        let before = first_occurrences(list.drop_last());
        lemma_first_occurrences(list.drop_last());
        let all = first_occurrences(list);
        assert forall|x: int| #[trigger] all.contains(x) <==> list.contains(x) by {
            if list.contains(x) {
                let i = choose|i: int| 0 <= i < list.len() && list[i] == x;
                if i < list.len() - 1 {
                    assert(list.drop_last()[i] == x);
                    assert(before.contains(x));
                    let k = choose|k: int| 0 <= k < before.len() && before[k] == x;
                    assert(all[k] == x);
                } else if !before.contains(x) {
                    assert(all[all.len() - 1] == x);
                }
            }
            if all.contains(x) {
                let k = choose|k: int| 0 <= k < all.len() && all[k] == x;
                if k < before.len() {
                    assert(before[k] == x);
                    assert(before.contains(x));
                    assert(list.drop_last().contains(x));
                    let i = choose|i: int|
                        0 <= i < list.drop_last().len() && list.drop_last()[i] == x;
                    assert(list[i] == x);
                } else {
                    assert(list[list.len() - 1] == x);
                }
            }
        }
    }
}

/// A selection never names anything beyond the list, and nothing twice.
pub proof fn law_selection_is_in_bounds_and_distinct(input: Seq<char>, max: int)
    requires
        0 <= max,
    ensures
        match selected(input, max) {
            Ok(list) => list.no_duplicates() && forall|i: int|
                0 <= i < list.len() ==> 0 <= #[trigger] list[i] < max,
            Err(_) => true,
        },
{
    let parts = split_on(input, ',');
    lemma_parts_in_bounds(parts, max);
    if let Ok(all) = parts_indices(parts, max) {
        lemma_first_occurrences(all);
        let list = first_occurrences(all);
        assert forall|i: int| 0 <= i < list.len() implies 0 <= #[trigger] list[i] < max by {
            assert(list.contains(list[i]));
            let k = choose|k: int| 0 <= k < all.len() && all[k] == list[i];
            assert(0 <= all[k] < max);
        }
    }
}

/// A selection names every number of a range that it gives, as far as the list goes.
pub proof fn law_range_names_its_numbers(start: int, end: int, max: int, n: int)
    requires
        1 <= start <= n <= end,
        n <= max,
    ensures
        range_indices(start, end, max).contains(n - 1),
{
    assert(range_indices(start, end, max)[n - start] == n - 1);
}

/// The indices of a list below a limit, in their order.
pub open spec fn below(list: Seq<int>, limit: int) -> Seq<int> {
    list.filter(|i: int| i < limit)
}

proof fn lemma_below_push(list: Seq<int>, x: int, limit: int)
    ensures
        below(list.push(x), limit) == if x < limit {
            below(list, limit).push(x)
        } else {
            below(list, limit)
        },
{
    reveal(Seq::filter);
    assert(list.push(x).drop_last() =~= list);
}

proof fn lemma_below_contains(list: Seq<int>, limit: int, x: int)
    requires
        x < limit,
    ensures
        below(list, limit).contains(x) == list.contains(x),
{
    let keeps = |i: int| i < limit;
    if list.contains(x) {
        let k = choose|k: int| 0 <= k < list.len() && list[k] == x;
        list.lemma_filter_contains(keeps, k);
    }
    if below(list, limit).contains(x) {
        list.lemma_filter_contains_rev(keeps, x);
    }
}

proof fn lemma_range_below(start: int, end: int, m: int, n: int)
    requires
        1 <= start,
        0 <= m <= n,
    ensures
        range_indices(start, end, m) == below(range_indices(start, end, n), m),
    decreases n - m,
{
    reveal(Seq::filter);
    if n > m {
        lemma_range_below(start, end, m, n - 1);
        let shorter = range_indices(start, end, n - 1);
        let longer = range_indices(start, end, n);
        if start <= n <= end {
            assert(longer =~= shorter.push(n - 1));
            lemma_below_push(shorter, n - 1, m);
        } else {
            assert(longer =~= shorter);
        }
    } else {
        lemma_below_all(range_indices(start, end, n), m);
    }
}

proof fn lemma_below_all(list: Seq<int>, limit: int)
    requires
        forall|i: int| 0 <= i < list.len() ==> #[trigger] list[i] < limit,
    ensures
        below(list, limit) == list,
    decreases list.len(),
{
    reveal(Seq::filter);
    if list.len() > 0 {
        let front = list.drop_last();
        assert forall|i: int| 0 <= i < front.len() implies #[trigger] front[i] < limit by {
            assert(list[i] < limit);
        }
        lemma_below_all(front, limit);
        assert(list[list.len() - 1] < limit);
        assert(front.push(list.last()) =~= list);
    }
}

proof fn lemma_part_below(raw: Seq<char>, m: int, n: int)
    requires
        0 <= m <= n,
    ensures
        match (part_indices(raw, m), part_indices(raw, n)) {
            (Ok(short), Ok(long)) => short == below(long, m),
            (Err(a), Err(b)) => a == b,
            _ => false,
        },
{
    let part = trimmed(raw);
    match position(part, '-') {
        Some(p) => {
            let start = natural(trimmed(part.take(p)), usize::MAX as nat);
            let end = natural(trimmed(part.skip(p + 1)), usize::MAX as nat);
            if let (Some(s), Some(e)) = (start, end) {
                if 1 <= s {
                    lemma_range_below(s as int, e as int, m, n);
                }
            }
        },
        None => {
            if let Some(k) = natural(part, usize::MAX as nat) {
                let nothing = Seq::<int>::empty();
                lemma_below_push(nothing, k - 1, m);
                lemma_below_all(nothing, m);
                assert(nothing.push(k - 1) =~= seq![k - 1]);
            }
        },
    }
}

proof fn lemma_parts_below(parts: Seq<Seq<char>>, m: int, n: int)
    requires
        0 <= m <= n,
    ensures
        match (parts_indices(parts, m), parts_indices(parts, n)) {
            (Ok(short), Ok(long)) => short == below(long, m),
            (Err(a), Err(b)) => a == b,
            _ => false,
        },
    decreases parts.len(),
{
    if parts.len() == 0 {
        lemma_below_all(Seq::empty(), m);
    } else {
        lemma_parts_below(parts.drop_last(), m, n);
        lemma_part_below(parts.last(), m, n);
        if let Ok(list) = parts_indices(parts.drop_last(), n) {
            if let Ok(more) = part_indices(parts.last(), n) {
                Seq::filter_distributes_over_add(list, more, |i: int| i < m);
            }
        }
    }
}

proof fn lemma_first_occurrences_below(list: Seq<int>, limit: int)
    ensures
        first_occurrences(below(list, limit)) == below(first_occurrences(list), limit),
    decreases list.len(),
{
    if list.len() == 0 {
        lemma_below_all(list, limit);
        lemma_below_all(Seq::empty(), limit);
    } else {
        let front = list.drop_last();
        let x = list.last();
        let before = first_occurrences(front);
        lemma_first_occurrences_below(front, limit);
        assert(list =~= front.push(x));
        lemma_below_push(front, x, limit);
        lemma_below_push(before, x, limit);
        if x < limit {
            lemma_below_contains(before, limit, x);
            assert(below(front, limit).push(x).drop_last() =~= below(front, limit));
        }
    }
}

/// A shorter list only cuts a selection down: it is faulty for one length where
/// it is for the other, in the same way; else it names for the shorter list what
/// it names for the longer one, without what is beyond the shorter list, in the
/// same order.
pub proof fn law_selection_is_cut_by_the_length(input: Seq<char>, m: int, n: int)
    requires
        0 <= m <= n,
    ensures
        match (selected(input, m), selected(input, n)) {
            (Ok(short), Ok(long)) => short == below(long, m),
            (Err(a), Err(b)) => a == b,
            _ => false,
        },
{
    let parts = split_on(input, ',');
    lemma_parts_below(parts, m, n);
    if let Ok(all) = parts_indices(parts, n) {
        lemma_first_occurrences_below(all, m);
    }
}

/// Of an empty list a selection names nothing, where it is not faulty.
pub proof fn law_empty_list_has_no_selection(input: Seq<char>)
    ensures
        match selected(input, 0) {
            Ok(list) => list.len() == 0,
            Err(_) => true,
        },
{
    law_selection_is_in_bounds_and_distinct(input, 0);
    if selected(input, 0) is Ok {
        let list = selected(input, 0)->Ok_0;
        assert(list.len() > 0 ==> list[0] < 0);
    }
}

/// What the answer to the question about the corrections asks for.
#[derive(Debug)]
pub enum Choice {
    /// Nothing is to be done.
    Abort,
    /// These corrections are to be applied; there may be none.
    Apply(Vec<usize>),
    /// The answer is faulty.
    Faulty(SelectionError),
}

/// The model of a choice.
pub enum ChoiceView {
    Abort,
    Apply(Seq<int>),
    Faulty(SelectionErrorView),
}

impl View for Choice {
    type V = ChoiceView;

    open spec fn view(&self) -> ChoiceView {
        match self {
            Choice::Abort => ChoiceView::Abort,
            Choice::Apply(list) => ChoiceView::Apply(indices(list@)),
            Choice::Faulty(error) => ChoiceView::Faulty(error@),
        }
    }
}

/// What an answer asks for: "none" or nothing aborts, "all" takes every one of
/// the `count` corrections, and anything else is a selection.
pub open spec fn choice_of(answer: Seq<char>, count: int) -> ChoiceView {
    let wanted = trimmed(answer);
    if same_ignoring_case(wanted, "none"@) || wanted.len() == 0 {
        ChoiceView::Abort
    } else if same_ignoring_case(wanted, "all"@) {
        ChoiceView::Apply(Seq::new(count as nat, |i: int| i))
    } else {
        match selected(wanted, count) {
            Ok(list) => ChoiceView::Apply(list),
            Err(error) => ChoiceView::Faulty(error),
        }
    }
}

/// What an answer asks for.
pub fn read_choice(answer: &str, count: usize) -> (choice: Choice)
    ensures
        choice@ == choice_of(answer@, count as int),
        choice matches Choice::Apply(list) ==> forall|i: int|
            0 <= i < list@.len() ==> #[trigger] list@[i] < count,
{
    let wanted = trim(answer);
    if eq_ignoring_case(wanted, "none") || wanted.is_empty() {
        return Choice::Abort;
    }
    if eq_ignoring_case(wanted, "all") {
        let mut list: Vec<usize> = Vec::new();
        for i in 0..count
            invariant
                indices(list@) == Seq::new(i as nat, |k: int| k),
        {
            let ghost before = list@;
            list.push(i);
            assert(indices(list@) =~= indices(before).push(i as int));
            assert(indices(list@) =~= Seq::new((i + 1) as nat, |k: int| k));
        }
        assert forall|i: int| 0 <= i < list@.len() implies #[trigger] list@[i] < count by {
            assert(indices(list@)[i] == i);
        }
        return Choice::Apply(list);
    }
    match parse_selection(wanted, count) {
        Ok(list) => {
            proof {
                law_selection_is_in_bounds_and_distinct(wanted@, count as int);
                assert forall|i: int| 0 <= i < list@.len() implies #[trigger] list@[i] < count by {
                    assert(indices(list@)[i] < count);
                }
            }
            Choice::Apply(list)
        },
        Err(error) => Choice::Faulty(error),
    }
}

/// A part that is a number counts for the correction with that number, where
/// there is one; a part that is two numbers with a hyphen between them counts for
/// all corrections from the one to the other. White space does not matter.
pub proof fn law_parts_name_their_numbers(
    raw: Seq<char>,
    start: nat,
    end: nat,
    before: Seq<char>,
    behind: Seq<char>,
    max: int,
    x: int,
)
    requires
        start <= usize::MAX,
        end <= usize::MAX,
        all_white(before),
        all_white(behind),
        0 <= max,
    ensures
        trimmed(raw) == decimal(start) ==> part_indices(raw, max) is Ok && (part_indices(
            raw,
            max,
        )->Ok_0.contains(x) <==> x == start - 1 && 0 <= x < max),
        trimmed(raw) == (decimal(start) + before).push('-') + (behind + decimal(end)) && 1 <= start
            <= end ==> part_indices(raw, max) is Ok && (part_indices(raw, max)->Ok_0.contains(x)
            <==> start - 1 <= x < end && x < max),
        trimmed(raw) == (decimal(start) + before).push('-') + (behind + decimal(end)) && (start < 1
            || end < start) ==> part_indices(raw, max) == Err::<Seq<int>, SelectionErrorView>(
            SelectionErrorView::InvalidRange(trimmed(raw)),
        ),
{
    lemma_decimal_is_natural(start);
    lemma_decimal_is_natural(end);
    let part = trimmed(raw);
    if part == decimal(start) {
        lemma_decimal_has_no_hyphen(start);
        lemma_position(part, '-');
        let list = part_indices(raw, max)->Ok_0;
        if list.len() > 0 {
            assert(list[0] == start - 1);
        }
    }
    let left = decimal(start) + before;
    let right = behind + decimal(end);
    if part == left.push('-') + right {
        lemma_decimal_has_no_hyphen(start);
        assert forall|j: int| 0 <= j < left.len() implies #[trigger] part[j] != '-' by {
            assert(part[j] == left[j]);
            if j < decimal(start).len() {
                assert(left[j] == decimal(start)[j]);
            } else {
                assert(is_white(before[j - decimal(start).len()]));
            }
        }
        let p = left.len() as int;
        lemma_position_is(part, '-', p);
        assert(part.take(p) =~= left);
        assert(part.skip(p + 1) =~= right);
        lemma_decimal_is_not_white(start);
        lemma_decimal_is_not_white(end);
        law_trim_takes_off_white_space(Seq::empty(), decimal(start), before);
        law_trim_takes_off_white_space(behind, decimal(end), Seq::empty());
        assert(Seq::<char>::empty() + decimal(start) + before =~= left);
        assert(behind + decimal(end) + Seq::<char>::empty() =~= right);
        if 1 <= start <= end {
            let list = range_indices(start as int, end as int, max);
            if start - 1 <= x < end && x < max {
                assert(list[x - (start - 1)] == x);
            }
        }
    }
}

proof fn lemma_decimal_is_natural(n: nat)
    requires
        n <= usize::MAX,
    ensures
        natural(decimal(n), usize::MAX as nat) == Some(n),
{
    lemma_decimal(n);
    assert(is_digit(decimal(n)[0]));
}

proof fn lemma_decimal_has_no_hyphen(n: nat)
    ensures
        forall|j: int| 0 <= j < decimal(n).len() ==> #[trigger] decimal(n)[j] != '-',
{
    lemma_decimal(n);
    assert forall|j: int| 0 <= j < decimal(n).len() implies #[trigger] decimal(n)[j] != '-' by {
        assert(is_digit(decimal(n)[j]));
    }
}

proof fn lemma_decimal_is_not_white(n: nat)
    ensures
        decimal(n).len() > 0,
        !is_white(decimal(n)[0]),
        !is_white(decimal(n).last()),
{
    lemma_decimal(n);
    assert(is_digit(decimal(n)[0]));
    assert(is_digit(decimal(n)[decimal(n).len() - 1]));
}

/// A part without a hyphen that is no number is a fault, and so is a range of
/// which one end is none.
pub proof fn law_other_parts_are_faulty(
    raw: Seq<char>,
    left: Seq<char>,
    right: Seq<char>,
    max: int,
)
    requires
        forall|j: int| 0 <= j < left.len() ==> #[trigger] left[j] != '-',
    ensures
        trimmed(raw) == left && natural(left, usize::MAX as nat) is None ==> part_indices(raw, max)
            == Err::<Seq<int>, SelectionErrorView>(SelectionErrorView::InvalidNumber(left)),
        trimmed(raw) == left.push('-') + right && (natural(trimmed(left), usize::MAX as nat) is None
            || natural(trimmed(right), usize::MAX as nat) is None) ==> part_indices(raw, max)
            == Err::<Seq<int>, SelectionErrorView>(
            SelectionErrorView::InvalidRange(left.push('-') + right),
        ),
{
    let part = trimmed(raw);
    lemma_position(left, '-');
    if part == left.push('-') + right {
        let p = left.len() as int;
        assert forall|j: int| 0 <= j < p implies #[trigger] part[j] != '-' by {
            assert(part[j] == left[j]);
        }
        lemma_position_is(part, '-', p);
        assert(part.take(p) =~= left);
        assert(part.skip(p + 1) =~= right);
    }
}

/// The part at a place of a selection names an index.
pub open spec fn part_names(parts: Seq<Seq<char>>, k: int, max: int, x: int) -> bool {
    part_indices(parts[k], max) is Ok && part_indices(parts[k], max)->Ok_0.contains(x)
}

/// A selection names exactly what its parts, with commas between them, name; it is
/// faulty exactly where one of them is, and then the first of those is to blame.
pub proof fn law_selection_names_what_its_parts_name(input: Seq<char>, max: int, x: int, k: int)
    ensures
        ({
            let parts = split_on(input, ',');
            let faulty = 0 <= k < parts.len() && part_indices(parts[k], max) is Err;
            &&& selected(input, max) matches Ok(list) ==> {
                &&& !faulty
                &&& list.contains(x) <==> exists|j: int|
                    0 <= j < parts.len() && #[trigger] part_names(parts, j, max, x)
            }
            &&& faulty && (forall|j: int|
                0 <= j < k ==> (#[trigger] part_indices(parts[j], max)) is Ok) ==> selected(
                input,
                max,
            ) == Err::<Seq<int>, SelectionErrorView>(part_indices(parts[k], max)->Err_0)
        }),
{
    let parts = split_on(input, ',');
    lemma_parts_name(parts, max, x, k);
    if let Ok(all) = parts_indices(parts, max) {
        lemma_first_occurrences(all);
    }
}

proof fn lemma_parts_name(parts: Seq<Seq<char>>, max: int, x: int, k: int)
    ensures
        ({
            let faulty = 0 <= k < parts.len() && part_indices(parts[k], max) is Err;
            &&& parts_indices(parts, max) matches Ok(list) ==> {
                &&& !faulty
                &&& list.contains(x) <==> exists|j: int|
                    0 <= j < parts.len() && #[trigger] part_names(parts, j, max, x)
            }
            &&& faulty && (forall|j: int|
                0 <= j < k ==> (#[trigger] part_indices(parts[j], max)) is Ok) ==> parts_indices(
                parts,
                max,
            ) == Err::<Seq<int>, SelectionErrorView>(part_indices(parts[k], max)->Err_0)
        }),
    decreases parts.len(),
{
    if parts.len() > 0 {
        let front = parts.drop_last();
        lemma_parts_name(front, max, x, k);
        assert forall|j: int| 0 <= j < front.len() implies #[trigger] front[j] == parts[j] by {}
        if let Ok(list) = parts_indices(parts, max) {
            let head = parts_indices(front, max)->Ok_0;
            let more = part_indices(parts.last(), max)->Ok_0;
            let last = parts.len() - 1;
            if list.contains(x) {
                let i = choose|i: int| 0 <= i < list.len() && list[i] == x;
                if i < head.len() {
                    assert(head[i] == x);
                    assert(head.contains(x));
                    let j = choose|j: int|
                        0 <= j < front.len() && #[trigger] part_names(front, j, max, x);
                    assert(part_names(parts, j, max, x));
                } else {
                    assert(more[i - head.len()] == x);
                    assert(part_names(parts, last, max, x));
                }
            }
            if exists|j: int| 0 <= j < parts.len() && #[trigger] part_names(parts, j, max, x) {
                let j = choose|j: int|
                    0 <= j < parts.len() && #[trigger] part_names(parts, j, max, x);
                if j < last {
                    assert(part_names(front, j, max, x));
                    let i = choose|i: int| 0 <= i < head.len() && head[i] == x;
                    assert(list[i] == x);
                } else {
                    let i = choose|i: int| 0 <= i < more.len() && more[i] == x;
                    assert(list[head.len() + i] == x);
                }
            }
        }
        if 0 <= k < parts.len() && part_indices(parts[k], max) is Err && (forall|j: int|
            0 <= j < k ==> (#[trigger] part_indices(parts[j], max)) is Ok) {
            if k == parts.len() - 1 {
                lemma_parts_are_fine(front, max);
            } else {
                assert forall|j: int| 0 <= j < k implies (#[trigger] part_indices(
                    front[j],
                    max,
                )) is Ok by {
                    assert(part_indices(parts[j], max) is Ok);
                }
            }
        }
    }
}

proof fn lemma_parts_are_fine(parts: Seq<Seq<char>>, max: int)
    requires
        forall|j: int| 0 <= j < parts.len() ==> (#[trigger] part_indices(parts[j], max)) is Ok,
    ensures
        parts_indices(parts, max) is Ok,
    decreases parts.len(),
{
    if parts.len() > 0 {
        let front = parts.drop_last();
        assert forall|j: int| 0 <= j < front.len() implies (#[trigger] part_indices(
            front[j],
            max,
        )) is Ok by {
            assert(part_indices(parts[j], max) is Ok);
        }
        lemma_parts_are_fine(front, max);
        assert(part_indices(parts[parts.len() - 1], max) is Ok);
    }
}

/// Leaving repetitions out keeps the order, and changes nothing where there are
/// none.
pub proof fn law_order_of_a_selection(list: Seq<int>, x: int)
    ensures
        list.no_duplicates() ==> first_occurrences(list) == list,
        list.contains(x) ==> first_occurrences(list.push(x)) == first_occurrences(list),
        !list.contains(x) ==> first_occurrences(list.push(x)) == first_occurrences(list).push(x),
    decreases list.len(),
{
    lemma_first_occurrences(list);
    assert(list.push(x).drop_last() =~= list);
    assert(first_occurrences(list).contains(x) <==> list.contains(x));
    if list.len() > 0 && list.no_duplicates() {
        let front = list.drop_last();
        assert(!front.contains(list.last()));
        assert(front.no_duplicates());
        law_order_of_a_selection(front, list.last());
        assert(front.push(list.last()) =~= list);
    }
}

/// An answer aborts where it is "none" or nothing but white space, takes every
/// correction where it is "all", and else counts as a selection; case and the white
/// space around it do not matter.
pub proof fn law_choices(answer: Seq<char>, count: int)
    requires
        0 <= count,
    ensures
        ({
            let wanted = trimmed(answer);
            let aborts = wanted.len() == 0 || same_ignoring_case(wanted, "none"@);
            &&& choice_of(answer, count) is Abort <==> aborts
            &&& same_ignoring_case(wanted, "all"@) ==> choice_of(answer, count) is Apply
                && choice_of(answer, count)->Apply_0.len() == count && forall|i: int|
                0 <= i < count ==> #[trigger] choice_of(answer, count)->Apply_0[i] == i
            &&& !aborts && !same_ignoring_case(wanted, "all"@) ==> match selected(wanted, count) {
                Ok(list) => choice_of(answer, count) == ChoiceView::Apply(list),
                Err(error) => choice_of(answer, count) == ChoiceView::Faulty(error),
            }
        }),
{
    reveal_strlit("all");
    reveal_strlit("none");
    assert("all"@.len() != "none"@.len());
}

/// The fault of a selection is shown with the part that is to blame.
pub proof fn law_faults_are_shown(part: Seq<char>)
    ensures
        SelectionErrorView::InvalidRange(part).text() == "Invalid range: '"@ + part + "'"@,
        SelectionErrorView::InvalidNumber(part).text() == "Invalid number: '"@ + part + "'"@,
{
}

/// A part counts by the numbers that it writes, in whatever form: one without a
/// hyphen for the number it is, and one with a hyphen for all numbers from the one
/// before its first hyphen to the one behind it.
pub proof fn law_parts_count_by_their_numbers(
    raw: Seq<char>,
    left: Seq<char>,
    right: Seq<char>,
    max: int,
    x: int,
)
    requires
        0 <= max,
        forall|j: int| 0 <= j < left.len() ==> #[trigger] left[j] != '-',
    ensures
        ({
            let limit = usize::MAX as nat;
            let one = natural(left, limit);
            let start = natural(trimmed(left), limit);
            let end = natural(trimmed(right), limit);
            let found = part_indices(raw, max);
            &&& trimmed(raw) == left && one is Some ==> found is Ok && (found->Ok_0.contains(x)
                <==> x == one->0 - 1 && 0 <= x < max)
            &&& trimmed(raw) == left.push('-') + right && start is Some && end is Some ==> {
                &&& 1 <= start->0 <= end->0 ==> found is Ok && (found->Ok_0.contains(x) <==> start->0
                    - 1 <= x < end->0 && x < max)
                &&& start->0 < 1 || end->0 < start->0 ==> found == Err::<
                    Seq<int>,
                    SelectionErrorView,
                >(SelectionErrorView::InvalidRange(trimmed(raw)))
            }
        }),
{
    let part = trimmed(raw);
    lemma_position(left, '-');
    if part == left && natural(left, usize::MAX as nat) is Some {
        let list = part_indices(raw, max)->Ok_0;
        if list.len() > 0 {
            assert(list[0] == natural(left, usize::MAX as nat)->0 - 1);
        }
    }
    if part == left.push('-') + right {
        let p = left.len() as int;
        assert forall|j: int| 0 <= j < p implies #[trigger] part[j] != '-' by {
            assert(part[j] == left[j]);
        }
        lemma_position_is(part, '-', p);
        assert(part.take(p) =~= left);
        assert(part.skip(p + 1) =~= right);
        let start = natural(trimmed(left), usize::MAX as nat);
        let end = natural(trimmed(right), usize::MAX as nat);
        if start is Some && end is Some && 1 <= start->0 <= end->0 {
            let list = range_indices(start->0 as int, end->0 as int, max);
            if start->0 - 1 <= x < end->0 && x < max {
                assert(list[x - (start->0 - 1)] == x);
            }
        }
    }
}

} // verus!
