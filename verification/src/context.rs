//! The text form in which a tracing context crosses the boundary: one line
//! for each entry, made of the key, a semicolon, the value and a line feed.

use vstd::prelude::*;
use crate::metadata::{as_map, distinct_keys, has_key, index_of, put_all, Entry, MetadataMap};

verus! {

/// The position of the first `stop` in `s`, or the length of `s` where it
/// holds none.
pub open spec fn first(s: Seq<char>, stop: char) -> int
    decreases s.len(),
{
    if s.len() == 0 || s[0] == stop {
        0
    } else {
        1 + first(s.drop_first(), stop)
    }
}

/// What stands in `s` before its first `stop`: all of `s` where it holds none.
pub open spec fn before(s: Seq<char>, stop: char) -> Seq<char> {
    s.take(first(s, stop))
}

/// What stands in `s` behind its first `stop`: nothing where it holds none.
pub open spec fn after(s: Seq<char>, stop: char) -> Seq<char> {
    if 0 <= first(s, stop) < s.len() {
        s.skip(first(s, stop) + 1)
    } else {
        Seq::empty()
    }
}

/// The entry that one line stands for. The key is what comes before the
/// first semicolon. The value is what stands between the first semicolon and
/// the second, and is empty on a line without a semicolon. What follows a
/// second semicolon is not read.
pub open spec fn line_entry(line: Seq<char>) -> Entry {
    (before(line, ';'), before(after(line, ';'), ';'))
}

/// The entries that the lines of `text` stand for, first to last. Each line
/// feed ends a line; what follows the last line feed is a line too, unless it
/// is empty.
pub open spec fn entries_of(text: Seq<char>) -> Seq<Entry>
    decreases text.len(),
{
    if text.len() == 0 {
        Seq::empty()
    } else {
        seq![line_entry(before(text, '\n'))] + entries_of(after(text, '\n'))
    }
}

/// The mapping that `text` stands for: its lines' entries, put one after the
/// other, so that of two lines with one key the later gives the value.
pub open spec fn decoded(text: Seq<char>) -> Seq<Entry> {
    put_all(Seq::empty(), entries_of(text))
}

/// The line that stands for one entry.
pub open spec fn line_of(key: Seq<char>, value: Seq<char>) -> Seq<char> {
    key + seq![';'] + value + seq!['\n']
}

/// The text that stands for `pairs`: the line of each entry, first to last.
pub open spec fn encoded(pairs: Seq<Entry>) -> Seq<char>
    decreases pairs.len(),
{
    if pairs.len() == 0 {
        Seq::empty()
    } else {
        line_of(pairs[0].0, pairs[0].1) + encoded(pairs.drop_first())
    }
}

/// `s` holds neither of the two characters that the text form gives a meaning.
pub open spec fn plain(s: Seq<char>) -> bool {
    forall|i: int| 0 <= i < s.len() ==> s[i] != ';' && s[i] != '\n'
}

/// Every key and every value of `pairs` is plain.
pub open spec fn wire_safe(pairs: Seq<Entry>) -> bool {
    forall|i: int| 0 <= i < pairs.len() ==> plain((#[trigger] pairs[i]).0) && plain(pairs[i].1)
}

/// `first` is the position before which no `stop` stands and at which one
/// does, or the sequence ends.
pub proof fn lemma_first_is(s: Seq<char>, stop: char, n: int)
    requires
        0 <= n <= s.len(),
        forall|i: int| 0 <= i < n ==> s[i] != stop,
        n < s.len() ==> s[n] == stop,
    ensures
        first(s, stop) == n,
    decreases s.len(),
{
    if n > 0 {
        let tail = s.drop_first();
        assert forall|i: int| 0 <= i < n - 1 implies tail[i] != stop by {
            assert(tail[i] == s[i + 1]);
        }
        if n - 1 < tail.len() {
            assert(tail[n - 1] == s[n]);
        }
        lemma_first_is(tail, stop, n - 1);
    }
}

/// A text that begins with a piece free of `stop`, and then `stop`, splits
/// there.
pub proof fn lemma_split_at_stop(head: Seq<char>, stop: char, tail: Seq<char>)
    requires
        forall|i: int| 0 <= i < head.len() ==> head[i] != stop,
    ensures
        before(head + seq![stop] + tail, stop) == head,
        after(head + seq![stop] + tail, stop) == tail,
{
    let s = head + seq![stop] + tail;
    assert forall|i: int| 0 <= i < head.len() implies s[i] != stop by {
        assert(s[i] == head[i]);
    }
    assert(s[head.len() as int] == stop);
    lemma_first_is(s, stop, head.len() as int);
    assert(s.take(head.len() as int) =~= head);
    assert(s.skip(head.len() as int + 1) =~= tail);
}

/// A text free of `stop` is all before it.
pub proof fn lemma_no_stop(s: Seq<char>, stop: char)
    requires
        forall|i: int| 0 <= i < s.len() ==> s[i] != stop,
    ensures
        before(s, stop) == s,
        after(s, stop) == Seq::<char>::empty(),
{
    lemma_first_is(s, stop, s.len() as int);
    assert(s.take(s.len() as int) =~= s);
}

/// The line of a plain entry stands for that entry.
pub proof fn lemma_line_round_trip(key: Seq<char>, value: Seq<char>)
    requires
        plain(key),
        plain(value),
    ensures
        line_entry(key + seq![';'] + value) == (key, value),
{
    lemma_split_at_stop(key, ';', value);
    lemma_no_stop(value, ';');
}

/// The text of some entries and one more is the text of the first and then
/// the line of the last.
pub proof fn lemma_encoded_push(pairs: Seq<Entry>, last: Entry)
    ensures
        encoded(pairs.push(last)) == encoded(pairs) + line_of(last.0, last.1),
    decreases pairs.len(),
{
    let all = pairs.push(last);
    if pairs.len() == 0 {
        assert(all.drop_first() =~= Seq::<Entry>::empty());
        assert(encoded(all.drop_first()) =~= Seq::<char>::empty());
        assert(encoded(all) =~= line_of(last.0, last.1));
        assert(encoded(pairs) + line_of(last.0, last.1) =~= line_of(last.0, last.1));
    } else {
        lemma_encoded_push(pairs.drop_first(), last);
        assert(all.drop_first() =~= pairs.drop_first().push(last));
        assert(all[0] == pairs[0]);
        assert(encoded(all) =~= encoded(pairs) + line_of(last.0, last.1));
    }
}

/// The text of plain entries stands for those entries, line by line.
pub proof fn lemma_entries_of_encoded(pairs: Seq<Entry>)
    requires
        wire_safe(pairs),
    ensures
        entries_of(encoded(pairs)) == pairs,
    decreases pairs.len(),
{
    if pairs.len() == 0 {
        assert(entries_of(encoded(pairs)) =~= pairs);
    } else {
        let key = pairs[0].0;
        let value = pairs[0].1;
        let rest = pairs.drop_first();
        let line = key + seq![';'] + value;
        let text = encoded(pairs);
        assert(plain(key) && plain(value));
        assert forall|i: int| 0 <= i < rest.len() implies plain((#[trigger] rest[i]).0) && plain(
            rest[i].1,
        ) by {
            assert(rest[i] == pairs[i + 1]);
        }
        assert(text =~= line + seq!['\n'] + encoded(rest));
        assert forall|i: int| 0 <= i < line.len() implies line[i] != '\n' by {
            if i < key.len() {
                assert(line[i] == key[i]);
            } else if i > key.len() {
                assert(line[i] == value[i - key.len() - 1]);
            }
        }
        lemma_split_at_stop(line, '\n', encoded(rest));
        lemma_line_round_trip(key, value);
        lemma_entries_of_encoded(rest);
        assert(text.len() > 0);
        assert(entries_of(text) =~= seq![(key, value)] + rest);
        assert(seq![(key, value)] + rest =~= pairs);
    }
}

/// Putting entries with distinct keys, none of which `acc` has, appends them.
pub proof fn lemma_put_all_fresh(acc: Seq<Entry>, pairs: Seq<Entry>)
    requires
        distinct_keys(acc + pairs),
    ensures
        put_all(acc, pairs) == acc + pairs,
    decreases pairs.len(),
{
    let all = acc + pairs;
    if pairs.len() == 0 {
        assert(all =~= acc);
    } else {
        let key = pairs[0].0;
        let value = pairs[0].1;
        assert(all[acc.len() as int] == pairs[0]);
        assert(!has_key(acc, key)) by {
            if has_key(acc, key) {
                let i = index_of(acc, key);
                assert(all[i] == acc[i]);
                assert(all[i].0 != all[acc.len() as int].0);
            }
        }
        let next = acc.push((key, value));
        assert(next + pairs.drop_first() =~= all);
        lemma_put_all_fresh(next, pairs.drop_first());
    }
}

/// Writing a mapping whose keys and values are plain, and reading the text
/// again, gives the mapping back, entry for entry.
pub proof fn lemma_round_trip(pairs: Seq<Entry>)
    requires
        distinct_keys(pairs),
        wire_safe(pairs),
    ensures
        decoded(encoded(pairs)) == pairs,
        as_map(decoded(encoded(pairs))) == as_map(pairs),
{
    lemma_entries_of_encoded(pairs);
    assert(Seq::<Entry>::empty() + pairs =~= pairs);
    lemma_put_all_fresh(Seq::empty(), pairs);
}

/// `String::push` of std appends one character to the end of the string.
pub assume_specification[ String::push ](text: &mut String, c: char)
    ensures
        final(text)@ == old(text)@.push(c),
;

/// Writes `context` as text: for each entry, first to last, a line made of
/// the key, a semicolon, the value and a line feed.
pub fn serialize_context(context: &MetadataMap) -> (text: String)
    ensures
        text@ == encoded(context.pairs()),
{
    let mut text = String::new();
    let n = context.len();
    let mut i: usize = 0;
    while i < n
        invariant
            i <= n,
            n == context.pairs().len(),
            text@ == encoded(context.pairs().take(i as int)),
        decreases n - i,
    {
        let (key, value) = context.entry(i);
        let ghost done = context.pairs().take(i as int);
        let ghost start = text@;
        text.append(key);
        text.push(';');
        text.append(value);
        text.push('\n');
        proof {
            lemma_encoded_push(done, context.pairs()[i as int]);
            assert(done.push(context.pairs()[i as int]) =~= context.pairs().take(i + 1));
            assert(text@ =~= start + line_of(key@, value@));
        }
        i += 1;
    }
    proof {
        assert(context.pairs().take(n as int) =~= context.pairs());
    }
    text
}

/// The characters of `text`.
fn chars_of(text: &str) -> (chars: Vec<char>)
    ensures
        chars@ == text@,
{
    let mut chars: Vec<char> = Vec::new();
    for c in it: text.chars()
        invariant
            chars@ == it.seq().take(it.index() as int),
    {
        chars.push(c);
    }
    chars
}

/// The first position from `from` on at which `stop` stands, or `to` where
/// it does not stand before `to`.
fn find(chars: &Vec<char>, from: usize, to: usize, stop: char) -> (at: usize)
    requires
        from <= to <= chars@.len(),
    ensures
        from <= at <= to,
        at - from == first(chars@.subrange(from as int, to as int), stop),
{
    let mut at: usize = from;
    while at < to && chars[at] != stop
        invariant
            from <= at <= to <= chars@.len(),
            forall|i: int| from <= i < at ==> chars@[i] != stop,
        decreases to - at,
    {
        at += 1;
    }
    proof {
        let piece = chars@.subrange(from as int, to as int);
        assert forall|i: int| 0 <= i < at - from implies piece[i] != stop by {
            assert(piece[i] == chars@[from + i]);
        }
        lemma_first_is(piece, stop, at - from);
    }
    at
}

/// The characters from `from` up to `to`, as a string.
fn text_between(chars: &Vec<char>, from: usize, to: usize) -> (text: String)
    requires
        from <= to <= chars@.len(),
    ensures
        text@ == chars@.subrange(from as int, to as int),
{
    let mut text = String::new();
    let mut i: usize = from;
    while i < to
        invariant
            from <= i <= to <= chars@.len(),
            text@ == chars@.subrange(from as int, i as int),
        decreases to - i,
    {
        text.push(chars[i]);
        proof {
            assert(text@ =~= chars@.subrange(from as int, i + 1));
        }
        i += 1;
    }
    proof {
        assert(text@ =~= chars@.subrange(from as int, to as int));
    }
    text
}

/// Reads the mapping that `text` stands for. A line gives its entry as
/// `line_entry` says; of two lines with one key the later gives the value.
/// An empty text, and what follows the last line feed if it is empty, gives
/// no entry.
pub fn deserialize_context(text: &str) -> (context: MetadataMap)
    ensures
        context.wf(),
        context.pairs() == decoded(text@),
{
    let chars = chars_of(text);
    let n = chars.len();
    let mut context = MetadataMap::new();
    let mut pos: usize = 0;
    proof {
        assert(chars@.skip(0) =~= chars@);
    }
    while pos < n
        invariant
            pos <= n,
            n == chars@.len(),
            chars@ == text@,
            context.wf(),
            put_all(context.pairs(), entries_of(chars@.skip(pos as int))) == decoded(text@),
        decreases n - pos,
    {
        let end = find(&chars, pos, n, '\n');
        let key_end = find(&chars, pos, end, ';');
        let key = text_between(&chars, pos, key_end);
        let ghost rest = chars@.skip(pos as int);
        let ghost line = chars@.subrange(pos as int, end as int);
        let ghost tail = after(rest, '\n');
        proof {
            assert(rest =~= chars@.subrange(pos as int, n as int));
            assert(before(rest, '\n') =~= line);
            assert(before(line, ';') =~= key@);
        }
        let value = if key_end < end {
            let value_end = find(&chars, key_end + 1, end, ';');
            let value = text_between(&chars, key_end + 1, value_end);
            proof {
                let behind = chars@.subrange(key_end + 1, end as int);
                assert(after(line, ';') =~= behind);
                assert(before(behind, ';') =~= value@);
            }
            value
        } else {
            proof {
                assert(after(line, ';') =~= Seq::<char>::empty());
                assert(before(Seq::<char>::empty(), ';') =~= Seq::<char>::empty());
            }
            String::new()
        };
        let next = if end < n {
            end + 1
        } else {
            n
        };
        proof {
            assert(line_entry(line) == (key@, value@));
            assert(tail =~= chars@.skip(next as int));
            let entries = entries_of(rest);
            assert(entries =~= seq![(key@, value@)] + entries_of(tail));
            assert(entries[0] == (key@, value@));
            assert(entries.drop_first() =~= entries_of(tail));
        }
        context.insert(key, value);
        pos = next;
    }
    proof {
        assert(chars@.skip(n as int) =~= Seq::<char>::empty());
    }
    context
}

} // verus!
