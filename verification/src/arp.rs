use vstd::prelude::*;
use crate::text::chars_of;

verus! {

/// Whether `c` is white space as `char::is_whitespace` counts it: the
/// characters with the Unicode `White_Space` property.
pub open spec fn is_whitespace(c: char) -> bool {
    let u = c as u32;
    ||| 0x09 <= u <= 0x0d
    ||| u == 0x20
    ||| u == 0x85
    ||| u == 0xa0
    ||| u == 0x1680
    ||| 0x2000 <= u <= 0x200a
    ||| u == 0x2028
    ||| u == 0x2029
    ||| u == 0x202f
    ||| u == 0x205f
    ||| u == 0x3000
}

/// The pieces of `s` between its `\n` characters (one more piece than
/// there are `\n`s; pieces may be empty).
pub open spec fn split_lines(s: Seq<char>) -> Seq<Seq<char>>
    decreases s.len(),
{
    if s.len() == 0 {
        seq![Seq::<char>::empty()]
    } else {
        let prev = split_lines(s.drop_last());
        if s.last() == '\n' {
            prev.push(Seq::empty())
        } else {
            prev.update(prev.len() - 1, prev.last().push(s.last()))
        }
    }
}

/// The words of `s`: its longest runs of characters that are not white
/// space, in order, as `str::split_whitespace` yields them.
pub open spec fn words(s: Seq<char>) -> Seq<Seq<char>>
    decreases s.len(),
{
    if s.len() == 0 {
        Seq::empty()
    } else {
        let prev = words(s.drop_last());
        let c = s.last();
        if is_whitespace(c) {
            prev
        } else if s.len() >= 2 && !is_whitespace(s[s.len() - 2]) {
            prev.update(prev.len() - 1, prev.last().push(c))
        } else {
            prev.push(seq![c])
        }
    }
}

/// The entry a row of the kernel's ARP table holds: its first column (the
/// address) and fourth column (the hardware address), where the row has
/// at least four columns and its third column (the flags) is `0x2`, the
/// mark of a complete entry.
pub open spec fn arp_row(line: Seq<char>) -> Option<(Seq<char>, Seq<char>)> {
    let cols = words(line);
    if cols.len() >= 4 && cols[2] == seq!['0', 'x', '2'] {
        Some((cols[0], cols[3]))
    } else {
        None
    }
}

/// The entries of the rows `lines`, in order.
pub open spec fn arp_rows(lines: Seq<Seq<char>>) -> Seq<(Seq<char>, Seq<char>)>
    decreases lines.len(),
{
    if lines.len() == 0 {
        Seq::empty()
    } else {
        let prev = arp_rows(lines.drop_last());
        match arp_row(lines.last()) {
            Some(entry) => prev.push(entry),
            None => prev,
        }
    }
}

/// The complete entries of the ARP table `text` (the text of
/// `/proc/net/arp`): every line but the first, the header, read by
/// `arp_row`. A carriage return is white space, so lines ended by `\r\n`
/// read the same.
pub open spec fn arp_table(text: Seq<char>) -> Seq<(Seq<char>, Seq<char>)> {
    arp_rows(split_lines(text).skip(1))
}

/// Splitting at `\n` always gives at least one piece.
pub proof fn lemma_split_lines_nonempty(s: Seq<char>)
    ensures
        split_lines(s).len() >= 1,
    decreases s.len(),
{
    if s.len() > 0 {
        lemma_split_lines_nonempty(s.drop_last());
    }
}

/// The bounds of the lines of `s`: the `k`-th pair `(lo, hi)` marks the
/// `k`-th piece of `split_lines(s)`.
pub fn line_bounds(s: &Vec<char>) -> (bounds: Vec<(usize, usize)>)
    ensures
        bounds@.len() == split_lines(s@).len(),
        forall|k: int|
            0 <= k < bounds@.len() ==> #[trigger] bounds@[k].0 <= bounds@[k].1 <= s@.len(),
        forall|k: int|
            0 <= k < bounds@.len() ==> s@.subrange(bounds@[k].0 as int, bounds@[k].1 as int)
                == #[trigger] split_lines(s@)[k],
{
    let mut bounds: Vec<(usize, usize)> = Vec::new();
    let mut start: usize = 0;
    let mut i: usize = 0;
    assert(s@.take(0) == Seq::<char>::empty());
    while i < s.len()
        invariant
            start <= i <= s@.len(),
            split_lines(s@.take(i as int)).len() == bounds@.len() + 1,
            split_lines(s@.take(i as int))[bounds@.len() as int] == s@.subrange(
                start as int,
                i as int,
            ),
            forall|k: int| #![trigger bounds@[k]] 0 <= k < bounds@.len() ==> bounds@[k].0 <= bounds@[k].1 <= start,
            forall|k: int|
                0 <= k < bounds@.len() ==> s@.subrange(bounds@[k].0 as int, bounds@[k].1 as int)
                    == #[trigger] split_lines(s@.take(i as int))[k],
        decreases s.len() - i,
    {
        let ghost prev = split_lines(s@.take(i as int));
        let ghost old_bounds = bounds@;
        assert(s@.take(i + 1).drop_last() == s@.take(i as int));
        assert(s@.take(i + 1).last() == s@[i as int]);
        if s[i] == '\n' {
            bounds.push((start, i));
            start = i + 1;
            assert(split_lines(s@.take(i + 1)) == prev.push(Seq::<char>::empty()));
            assert(s@.subrange(start as int, (i + 1) as int) == Seq::<char>::empty());
            assert forall|k: int| #![trigger bounds@[k]] 0 <= k < bounds@.len() implies bounds@[k].0
                <= bounds@[k].1 <= start by {
                if k < old_bounds.len() {
                    assert(bounds@[k] == old_bounds[k]);
                }
            }
            assert forall|k: int| 0 <= k < bounds@.len() implies s@.subrange(
                bounds@[k].0 as int,
                bounds@[k].1 as int,
            ) == #[trigger] split_lines(s@.take(i + 1))[k] by {
                if k < old_bounds.len() {
                    assert(bounds@[k] == old_bounds[k]);
                    assert(split_lines(s@.take(i + 1))[k] == prev[k]);
                }
            }
        } else {
            let ghost cur = s@.subrange(start as int, i as int);
            assert(split_lines(s@.take(i + 1)) == prev.update(
                prev.len() - 1,
                cur.push(s@[i as int]),
            ));
            assert(s@.subrange(start as int, (i + 1) as int) == cur.push(s@[i as int]));
            assert forall|k: int| 0 <= k < bounds@.len() implies s@.subrange(
                bounds@[k].0 as int,
                bounds@[k].1 as int,
            ) == #[trigger] split_lines(s@.take(i + 1))[k] by {
                assert(split_lines(s@.take(i + 1))[k] == prev[k]);
            }
        }
        i = i + 1;
    }
    assert(s@.take(s@.len() as int) == s@);
    let ghost old_bounds = bounds@;
    bounds.push((start, s.len()));
    assert forall|k: int| 0 <= k < bounds@.len() implies s@.subrange(
        bounds@[k].0 as int,
        bounds@[k].1 as int,
    ) == #[trigger] split_lines(s@)[k] by {
        if k < old_bounds.len() {
            assert(bounds@[k] == old_bounds[k]);
        }
    }
    bounds
}

/// The bounds of the words of `s[lo..hi]`: the `k`-th pair `(a, b)` marks
/// the `k`-th word.
pub fn word_bounds(s: &Vec<char>, lo: usize, hi: usize) -> (bounds: Vec<(usize, usize)>)
    requires
        lo <= hi <= s@.len(),
    ensures
        bounds@.len() == words(s@.subrange(lo as int, hi as int)).len(),
        forall|k: int| #![trigger bounds@[k]] 0 <= k < bounds@.len() ==> lo <= bounds@[k].0 <= bounds@[k].1 <= hi,
        forall|k: int|
            0 <= k < bounds@.len() ==> s@.subrange(bounds@[k].0 as int, bounds@[k].1 as int)
                == #[trigger] words(s@.subrange(lo as int, hi as int))[k],
{
    let mut bounds: Vec<(usize, usize)> = Vec::new();
    let mut i: usize = lo;
    assert(s@.subrange(lo as int, lo as int) == Seq::<char>::empty());
    while i < hi
        invariant
            lo <= i <= hi <= s@.len(),
            bounds@.len() == words(s@.subrange(lo as int, i as int)).len(),
            forall|k: int| #![trigger bounds@[k]] 0 <= k < bounds@.len() ==> lo <= bounds@[k].0 <= bounds@[k].1 <= i,
            forall|k: int|
                0 <= k < bounds@.len() ==> s@.subrange(bounds@[k].0 as int, bounds@[k].1 as int)
                    == #[trigger] words(s@.subrange(lo as int, i as int))[k],
            (i > lo && !is_whitespace(s@[i - 1])) ==> bounds@.len() > 0 && bounds@[bounds@.len()
                - 1].1 == i,
        decreases hi - i,
    {
        let ghost cur = s@.subrange(lo as int, (i + 1) as int);
        let ghost prev = words(s@.subrange(lo as int, i as int));
        let ghost old_bounds = bounds@;
        assert(cur.drop_last() == s@.subrange(lo as int, i as int));
        assert(cur.last() == s@[i as int]);
        let c = s[i];
        if is_space(c) {
            assert(words(cur) == prev);
        } else if i > lo && !is_space(s[i - 1]) {
            assert(cur[cur.len() - 2] == s@[i - 1]);
            let last = bounds.len() - 1;
            let (a, _) = bounds[last];
            assert(old_bounds[last as int].0 <= old_bounds[last as int].1);
            bounds.set(last, (a, i + 1));
            assert(s@.subrange(a as int, (i + 1) as int) == s@.subrange(a as int, i as int).push(c));
            assert(words(cur) == prev.update(prev.len() - 1, prev.last().push(c)));
            assert forall|k: int| 0 <= k < bounds@.len() implies s@.subrange(
                bounds@[k].0 as int,
                bounds@[k].1 as int,
            ) == #[trigger] words(cur)[k] by {
                if k < last {
                    assert(bounds@[k] == old_bounds[k]);
                    assert(words(cur)[k] == prev[k]);
                } else {
                    assert(prev[k] == s@.subrange(a as int, i as int));
                }
            }
            assert forall|k: int| #![trigger bounds@[k]] 0 <= k < bounds@.len() implies lo <= bounds@[k].0
                <= bounds@[k].1 <= i + 1 by {
                if k < last {
                    assert(bounds@[k] == old_bounds[k]);
                }
            }
        } else {
            if i > lo {
                assert(cur[cur.len() - 2] == s@[i - 1]);
            }
            bounds.push((i, i + 1));
            assert(s@.subrange(i as int, (i + 1) as int) == seq![c]);
            assert(words(cur) == prev.push(seq![c]));
            assert forall|k: int| 0 <= k < bounds@.len() implies s@.subrange(
                bounds@[k].0 as int,
                bounds@[k].1 as int,
            ) == #[trigger] words(cur)[k] by {
                if k < old_bounds.len() {
                    assert(bounds@[k] == old_bounds[k]);
                    assert(words(cur)[k] == prev[k]);
                }
            }
            assert forall|k: int| #![trigger bounds@[k]] 0 <= k < bounds@.len() implies lo <= bounds@[k].0
                <= bounds@[k].1 <= i + 1 by {
                if k < old_bounds.len() {
                    assert(bounds@[k] == old_bounds[k]);
                }
            }
        }
        i = i + 1;
    }
    bounds
}

/// Whether `c` is white space (see `is_whitespace`).
pub fn is_space(c: char) -> (space: bool)
    ensures
        space == is_whitespace(c),
{
    let u = c as u32;
    (0x09 <= u && u <= 0x0d) || u == 0x20 || u == 0x85 || u == 0xa0 || u == 0x1680 || (0x2000 <= u
        && u <= 0x200a) || u == 0x2028 || u == 0x2029 || u == 0x202f || u == 0x205f || u == 0x3000
}

} // verus!

verus! {

/// The pair of texts an entry is made of, as character sequences.
pub open spec fn entry_view(p: (String, String)) -> (Seq<char>, Seq<char>) {
    (p.0@, p.1@)
}

/// Whether the word `s[w.0..w.1]` is `0x2`.
fn is_complete_flag(s: &Vec<char>, w: (usize, usize)) -> (yes: bool)
    requires
        w.0 <= w.1 <= s@.len(),
    ensures
        yes == (s@.subrange(w.0 as int, w.1 as int) == seq!['0', 'x', '2']),
{
    let (a, b) = w;
    if b - a != 3 {
        assert(seq!['0', 'x', '2'].len() == 3);
        return false;
    }
    let ghost word = s@.subrange(a as int, b as int);
    assert(word[0] == s@[a as int] && word[1] == s@[a + 1] && word[2] == s@[a + 2]);
    let yes = s[a] == '0' && s[a + 1] == 'x' && s[a + 2] == '2';
    if yes {
        assert(word == seq!['0', 'x', '2']);
    }
    yes
}

/// The complete entries of the ARP table `text` (the text of
/// `/proc/net/arp`), as `(address, hardware address)` pairs in table order.
pub fn parse_arp_entries(text: &str) -> (entries: Vec<(String, String)>)
    ensures
        entries@.map_values(|p: (String, String)| entry_view(p)) == arp_table(text@),
{
    let chars = chars_of(text);
    let lines = line_bounds(&chars);
    let ghost all = split_lines(chars@);
    proof {
        lemma_split_lines_nonempty(chars@);
    }
    let mut entries: Vec<(String, String)> = Vec::new();
    let mut k: usize = 1;
    assert(all.subrange(1, 1) == Seq::<Seq<char>>::empty());
    while k < lines.len()
        invariant
            chars@ == text@,
            all == split_lines(chars@),
            lines@.len() == all.len(),
            forall|j: int| #![trigger lines@[j]] 0 <= j < lines@.len() ==> lines@[j].0 <= lines@[j].1 <= chars@.len(),
            forall|j: int|
                0 <= j < lines@.len() ==> chars@.subrange(lines@[j].0 as int, lines@[j].1 as int)
                    == #[trigger] all[j],
            1 <= k <= lines@.len(),
            entries@.map_values(|p: (String, String)| entry_view(p)) == arp_rows(
                all.subrange(1, k as int),
            ),
        decreases lines.len() - k,
    {
        let (lo, hi) = lines[k];
        let ghost line = all[k as int];
        assert(chars@.subrange(lo as int, hi as int) == line);
        assert(all.subrange(1, k + 1).drop_last() == all.subrange(1, k as int));
        assert(all.subrange(1, k + 1).last() == line);
        let cols = word_bounds(&chars, lo, hi);
        let ghost ws = words(line);
        let ghost old_entries = entries@;
        if cols.len() >= 4 && is_complete_flag(&chars, cols[2]) {
            assert(chars@.subrange(cols@[2].0 as int, cols@[2].1 as int) == ws[2]);
            let ip = String::from_str(text.substring_char(cols[0].0, cols[0].1));
            let mac = String::from_str(text.substring_char(cols[3].0, cols[3].1));
            assert(ip@ == ws[0]);
            assert(mac@ == ws[3]);
            entries.push((ip, mac));
            assert(entries@.map_values(|p: (String, String)| entry_view(p)) == old_entries.map_values(
                |p: (String, String)| entry_view(p),
            ).push((ws[0], ws[3])));
        } else {
            if cols.len() >= 4 {
                assert(chars@.subrange(cols@[2].0 as int, cols@[2].1 as int) == ws[2]);
            }
        }
        k = k + 1;
    }
    assert(all.subrange(1, lines.len() as int) == all.skip(1));
    entries
}

} // verus!
