//! A plain link extractor: the `href` attributes of a page that lie within
//! a scope, each once.

use crate::frontier::string_views;
use vstd::prelude::*;
use vstd::string::StrSliceExecFns;

verus! {

/// `pattern` occurs in `text` at index `at`.
pub open spec fn occurs_at(text: Seq<char>, pattern: Seq<char>, at: int) -> bool {
    &&& 0 <= at
    &&& at + pattern.len() <= text.len()
    &&& forall|k: int| 0 <= k < pattern.len() ==> text[at + k] == #[trigger] pattern[k]
}

/// `at` is the first index at which `pattern` occurs in `text`.
pub open spec fn first_occurs_at(text: Seq<char>, pattern: Seq<char>, at: int) -> bool {
    &&& occurs_at(text, pattern, at)
    &&& forall|before: int| 0 <= before < at ==> !occurs_at(text, pattern, before)
}

/// The first index at which `pattern` occurs in `text`, if it occurs at all.
pub open spec fn find(text: Seq<char>, pattern: Seq<char>) -> Option<int> {
    if exists|at: int| first_occurs_at(text, pattern, at) {
        Some(choose|at: int| first_occurs_at(text, pattern, at))
    } else {
        None
    }
}

/// The text that opens a link.
pub open spec fn link_opener() -> Seq<char> {
    seq!['h', 'r', 'e', 'f', '=', '"']
}

/// The text that closes a link.
pub open spec fn link_closer() -> Seq<char> {
    seq!['"']
}

/// The text that ends a line.
pub open spec fn line_end() -> Seq<char> {
    seq!['\n']
}

/// The in-scope links of one line, every opener read in turn: a link is
/// what stands between an `href="` and the next `"` on the line, the next
/// opener is looked for behind that `"`, and a link is kept if it begins
/// with `scope`. An opener that is not closed on its line ends the reading.
pub open spec fn links_of_line(line: Seq<char>, scope: Seq<char>) -> Seq<Seq<char>>
    decreases line.len(),
    via links_of_line_decreases
{
    match find(line, link_opener()) {
        None => Seq::empty(),
        Some(at) => {
            let rest = line.skip(at + link_opener().len());
            match find(rest, link_closer()) {
                None => Seq::empty(),
                Some(len) => {
                    let link = rest.take(len);
                    let kept = if scope.is_prefix_of(link) {
                        seq![link]
                    } else {
                        Seq::empty()
                    };
                    kept + links_of_line(rest.skip(len + 1), scope)
                },
            }
        },
    }
}

#[via_fn]
proof fn links_of_line_decreases(line: Seq<char>, scope: Seq<char>) {
    match find(line, link_opener()) {
        None => {},
        Some(at) => {
            lemma_find_bounds(line, link_opener());
            let rest = line.skip(at + link_opener().len());
            match find(rest, link_closer()) {
                None => {},
                Some(len) => {
                    lemma_find_bounds(rest, link_closer());
                },
            }
        },
    }
}

/// The in-scope links of every line of a page, line by line, with repeats.
pub open spec fn links_of_lines(html: Seq<char>, scope: Seq<char>) -> Seq<Seq<char>>
    decreases html.len(),
    via links_of_lines_decreases
{
    if html.len() == 0 {
        Seq::empty()
    } else {
        match find(html, line_end()) {
            Some(at) => links_of_line(html.take(at), scope) + links_of_lines(
                html.skip(at + 1),
                scope,
            ),
            None => links_of_line(html, scope),
        }
    }
}

#[via_fn]
proof fn links_of_lines_decreases(html: Seq<char>, scope: Seq<char>) {
    lemma_find_bounds(html, line_end());
}

/// The items of `items`, each once, in the order of their first occurrence.
pub open spec fn first_occurrences(items: Seq<Seq<char>>) -> Seq<Seq<char>>
    decreases items.len(),
{
    if items.len() == 0 {
        Seq::empty()
    } else {
        let before = first_occurrences(items.drop_last());
        if before.contains(items.last()) {
            before
        } else {
            before.push(items.last())
        }
    }
}

/// The in-scope links of a page, each once, in the order of first occurrence.
pub open spec fn links_in(html: Seq<char>, scope: Seq<char>) -> Seq<Seq<char>> {
    first_occurrences(links_of_lines(html, scope))
}

/// Where a pattern is found, it occurs, and nowhere before.
pub proof fn lemma_find_bounds(text: Seq<char>, pattern: Seq<char>)
    ensures
        match find(text, pattern) {
            Some(at) => first_occurs_at(text, pattern, at),
            None => forall|at: int| !first_occurs_at(text, pattern, at),
        },
{
}

/// The first occurrence is the only index that is one.
pub proof fn lemma_find_is(text: Seq<char>, pattern: Seq<char>, at: int)
    requires
        first_occurs_at(text, pattern, at),
    ensures
        find(text, pattern) == Some(at),
{
    let found = choose|at: int| first_occurs_at(text, pattern, at);
    if found < at {
        assert(!occurs_at(text, pattern, found));
    } else if at < found {
        assert(!occurs_at(text, pattern, at));
    }
}

/// A pattern that occurs nowhere is not found.
pub proof fn lemma_find_none(text: Seq<char>, pattern: Seq<char>)
    requires
        forall|at: int| 0 <= at ==> !occurs_at(text, pattern, at),
    ensures
        find(text, pattern) is None,
{
}

/// What is kept of a sequence are its items, each once.
pub proof fn lemma_first_occurrences(items: Seq<Seq<char>>)
    ensures
        first_occurrences(items).no_duplicates(),
        forall|item: Seq<char>|
            #[trigger] first_occurrences(items).contains(item) <==> items.contains(item),
    decreases items.len(),
{
    if items.len() > 0 {
        let init = items.drop_last();
        let before = first_occurrences(init);
        lemma_first_occurrences(init);
        let kept = first_occurrences(items);
        assert forall|item: Seq<char>| #[trigger] kept.contains(item) <==> items.contains(
            item,
        ) by {
            if kept.contains(item) {
                let i = choose|i: int| 0 <= i < kept.len() && kept[i] == item;
                if i < before.len() {
                    assert(before.contains(item));
                    let j = choose|j: int| 0 <= j < init.len() && init[j] == item;
                    assert(items[j] == item);
                } else {
                    assert(items[items.len() - 1] == item);
                }
            }
            if items.contains(item) {
                let j = choose|j: int| 0 <= j < items.len() && items[j] == item;
                if j < init.len() {
                    assert(init[j] == item);
                    assert(before.contains(item));
                    let i = choose|i: int| 0 <= i < before.len() && before[i] == item;
                    assert(kept[i] == item);
                } else if !before.contains(item) {
                    assert(kept[before.len() as int] == item);
                }
            }
        }
        if !before.contains(items.last()) {
            assert forall|i: int, j: int|
                0 <= i < kept.len() && 0 <= j < kept.len() && i != j implies kept[i]
                != kept[j] by {
                if i < before.len() && j < before.len() {
                    assert(before[i] != before[j]);
                } else if i < before.len() {
                    assert(before.contains(before[i]));
                } else {
                    assert(before.contains(before[j]));
                }
            }
        }
    }
}

/// The characters of `text`, in order.
pub fn chars_of(text: &str) -> (chars: Vec<char>)
    ensures
        chars@ == text@,
{
    let mut chars: Vec<char> = Vec::new();
    for c in it: text.chars()
        invariant
            chars@ == it.seq().take(it.index@),
            it.seq() == text@,
    {
        chars.push(c);
        assert(it.seq().take(it.index@ + 1) =~= it.seq().take(it.index@).push(c));
    }
    assert(chars@ =~= text@);
    chars
}

/// Whether `pattern` occurs in `text[from..until]` at offset `at - from`.
fn occurs_here(text: &Vec<char>, until: usize, pattern: &Vec<char>, from: usize, at: usize) -> (yes:
    bool)
    requires
        from <= at <= until <= text.len(),
    ensures
        yes == occurs_at(text@.subrange(from as int, until as int), pattern@, at - from),
{
    let ghost window = text@.subrange(from as int, until as int);
    if pattern.len() > until - at {
        return false;
    }
    let mut k: usize = 0;
    while k < pattern.len()
        invariant
            from <= at <= until <= text.len(),
            at + pattern.len() <= until,
            k <= pattern.len(),
            window == text@.subrange(from as int, until as int),
            forall|j: int| 0 <= j < k ==> window[at - from + j] == #[trigger] pattern@[j],
        decreases pattern.len() - k,
    {
        if text[at + k] != pattern[k] {
            assert(window[at - from + k] != pattern@[k as int]);
            return false;
        }
        k += 1;
    }
    true
}

/// The first index in `from..until` at which `pattern` occurs in
/// `text[from..until]`, as an index into `text`.
fn find_between(text: &Vec<char>, from: usize, until: usize, pattern: &Vec<char>) -> (at: Option<
    usize,
>)
    requires
        from <= until <= text.len(),
        pattern.len() > 0,
    ensures
        match find(text@.subrange(from as int, until as int), pattern@) {
            Some(offset) => at == Some((from + offset) as usize) && from + offset
                + pattern@.len() <= until && 0 <= offset,
            None => at is None,
        },
{
    let ghost window = text@.subrange(from as int, until as int);
    let mut at: usize = from;
    while at < until
        invariant
            from <= at <= until <= text.len(),
            pattern.len() > 0,
            window == text@.subrange(from as int, until as int),
            forall|before: int| 0 <= before < at - from ==> !occurs_at(window, pattern@, before),
        decreases until - at,
    {
        if occurs_here(text, until, pattern, from, at) {
            proof {
                lemma_find_is(window, pattern@, at - from);
            }
            return Some(at);
        }
        at += 1;
    }
    proof {
        lemma_find_none(window, pattern@);
    }
    None
}

/// Whether `text[from..until]` begins with `prefix`.
fn begins_with(text: &Vec<char>, from: usize, until: usize, prefix: &Vec<char>) -> (yes: bool)
    requires
        from <= until <= text.len(),
    ensures
        yes == prefix@.is_prefix_of(text@.subrange(from as int, until as int)),
{
    let ghost window = text@.subrange(from as int, until as int);
    if prefix.len() > until - from {
        return false;
    }
    let mut k: usize = 0;
    while k < prefix.len()
        invariant
            from <= until <= text.len(),
            prefix.len() <= until - from,
            k <= prefix.len(),
            window == text@.subrange(from as int, until as int),
            forall|j: int| 0 <= j < k ==> window[j] == #[trigger] prefix@[j],
        decreases prefix.len() - k,
    {
        if text[from + k] != prefix[k] {
            assert(window.subrange(0, prefix@.len() as int)[k as int] != prefix@[k as int]);
            return false;
        }
        k += 1;
    }
    assert(window.subrange(0, prefix@.len() as int) =~= prefix@);
    true
}

/// The in-scope links of the line `text[from..until]` of the page `html`.
#[verifier::rlimit(50)]
fn links_between(html: &str, text: &Vec<char>, from: usize, until: usize, scope: &Vec<char>) -> (links:
    Vec<String>)
    requires
        text@ == html@,
        from <= until <= text.len(),
    ensures
        string_views(links@) == links_of_line(text@.subrange(from as int, until as int), scope@),
{
    let opener: Vec<char> = vec!['h', 'r', 'e', 'f', '=', '"'];
    let closer: Vec<char> = vec!['"'];
    assert(opener@ =~= link_opener());
    assert(closer@ =~= link_closer());
    let ghost line = text@.subrange(from as int, until as int);
    let mut links: Vec<String> = Vec::new();
    let mut cursor: usize = from;
    let mut done = false;
    assert(string_views(links@) + links_of_line(line, scope@) =~= links_of_line(line, scope@));
    while !done
        invariant
            from <= cursor <= until <= text.len(),
            text@ == html@,
            opener@ == link_opener(),
            closer@ == link_closer(),
            line == text@.subrange(from as int, until as int),
            !done ==> links_of_line(line, scope@) == string_views(links@) + links_of_line(
                text@.subrange(cursor as int, until as int),
                scope@,
            ),
            done ==> links_of_line(line, scope@) == string_views(links@),
        decreases
                if done {
                    0
                } else {
                    until - cursor + 1
                },
    {
        let ghost here = text@.subrange(cursor as int, until as int);
        let ghost kept = string_views(links@);
        match find_between(text, cursor, until, &opener) {
            Some(at) => {
                let start = at + 6;
                let ghost rest = here.skip(at - cursor + 6);
                assert(rest =~= text@.subrange(start as int, until as int));
                match find_between(text, start, until, &closer) {
                    Some(close) => {
                        let ghost link = rest.take(close - start);
                        assert(link =~= text@.subrange(start as int, close as int));
                        assert(rest.skip(close - start + 1) =~= text@.subrange(
                            close + 1,
                            until as int,
                        ));
                        let ghost tail = links_of_line(
                            text@.subrange(close + 1, until as int),
                            scope@,
                        );
                        if begins_with(text, start, close, scope) {
                            links.push(html.substring_char(start, close).to_owned());
                            assert(string_views(links@) =~= kept + seq![link]);
                            assert(kept + (seq![link] + tail) =~= (kept + seq![link]) + tail);
                        } else {
                            assert(Seq::<Seq<char>>::empty() + tail =~= tail);
                        }
                        cursor = close + 1;
                    },
                    None => {
                        assert(kept + Seq::<Seq<char>>::empty() =~= kept);
                        done = true;
                    },
                }
            },
            None => {
                assert(kept + Seq::<Seq<char>>::empty() =~= kept);
                done = true;
            },
        }
    }
    links
}

/// Whether `links` holds `link`.
fn holds(links: &Vec<String>, link: &String) -> (yes: bool)
    ensures
        yes == string_views(links@).contains(link@),
{
    let mut i: usize = 0;
    while i < links.len()
        invariant
            i <= links.len(),
            forall|j: int| 0 <= j < i ==> string_views(links@)[j] != link@,
        decreases links.len() - i,
    {
        if links[i] == *link {
            assert(string_views(links@)[i as int] == link@);
            return true;
        }
        i += 1;
    }
    false
}

/// Appends to `links`, which holds each of `seen` once, each of `more` that
/// it does not hold yet.
fn keep_new(links: &mut Vec<String>, more: &Vec<String>, Ghost(seen): Ghost<Seq<Seq<char>>>)
    requires
        string_views(old(links)@) == first_occurrences(seen),
    ensures
        string_views(final(links)@) == first_occurrences(seen + string_views(more@)),
{
    let mut k: usize = 0;
    assert(seen + string_views(more@).take(0) =~= seen);
    while k < more.len()
        invariant
            k <= more.len(),
            string_views(links@) == first_occurrences(seen + string_views(more@).take(k as int)),
        decreases more.len() - k,
    {
        let ghost before = seen + string_views(more@).take(k as int);
        let ghost after = seen + string_views(more@).take(k + 1);
        assert(after.drop_last() =~= before);
        assert(after.last() == more[k as int]@);
        let ghost kept = string_views(links@);
        if !holds(links, &more[k]) {
            links.push(more[k].clone());
            assert(string_views(links@) =~= kept.push(more[k as int]@));
        }
        k += 1;
    }
    assert(string_views(more@).take(k as int) =~= string_views(more@));
}

/// The links of the page `html` that begin with `base_url`, each once, in
/// the order of first occurrence. A link is what stands between an `href="`
/// and the next `"` on the same line.
#[verifier::rlimit(50)]
pub fn extract_links(html: &str, base_url: &str) -> (links: Vec<String>)
    ensures
        string_views(links@) == links_in(html@, base_url@),
        string_views(links@).no_duplicates(),
{
    let text = chars_of(html);
    let scope = chars_of(base_url);
    let newline: Vec<char> = vec!['\n'];
    assert(newline@ =~= line_end());
    let mut links: Vec<String> = Vec::new();
    let ghost mut seen: Seq<Seq<char>> = Seq::empty();
    let mut pos: usize = 0;
    assert(html@.skip(0) =~= html@);
    assert(string_views(links@) =~= Seq::<Seq<char>>::empty());
    assert(seen + links_of_lines(html@, base_url@) =~= links_of_lines(html@, base_url@));
    while pos < text.len()
        invariant
            pos <= text.len(),
            text@ == html@,
            scope@ == base_url@,
            newline@ == line_end(),
            string_views(links@) == first_occurrences(seen),
            links_of_lines(html@, base_url@) == seen + links_of_lines(
                html@.skip(pos as int),
                base_url@,
            ),
        decreases text.len() - pos,
    {
        let ghost tail = html@.skip(pos as int);
        assert(tail =~= text@.subrange(pos as int, text.len() as int));
        let (end, next) = match find_between(&text, pos, text.len(), &newline) {
            Some(at) => (at, at + 1),
            None => (text.len(), text.len()),
        };
        let found = links_between(html, &text, pos, end, &scope);
        proof {
            let rest = links_of_lines(html@.skip(next as int), base_url@);
            if end < text.len() {
                assert(tail.take(end - pos) =~= text@.subrange(pos as int, end as int));
                assert(tail.skip(end - pos + 1) =~= html@.skip(next as int));
            } else {
                assert(tail =~= text@.subrange(pos as int, end as int));
                assert(html@.skip(next as int).len() == 0);
                assert(string_views(found@) + rest =~= string_views(found@));
            }
            assert(links_of_lines(tail, base_url@) == string_views(found@) + rest);
            assert(seen + (string_views(found@) + rest) =~= (seen + string_views(found@)) + rest);
        }
        keep_new(&mut links, &found, Ghost(seen));
        proof {
            seen = seen + string_views(found@);
        }
        pos = next;
    }
    proof {
        assert(html@.skip(pos as int).len() == 0);
        assert(seen + Seq::<Seq<char>>::empty() =~= seen);
        lemma_first_occurrences(seen);
    }
    links
}

} // verus!
