//! Label values in Prometheus text format. A value stands between quotes, so a
//! quote in it, a backslash and a line feed are escaped.

use vstd::prelude::*;

verus! {

/// How a character is written in a label value.
pub open spec fn escaped_char(c: char) -> Seq<char> {
    if c == '\\' {
        seq!['\\', '\\']
    } else if c == '"' {
        seq!['\\', '"']
    } else if c == '\n' {
        seq!['\\', 'n']
    } else {
        seq![c]
    }
}

/// How a text is written as a label value.
pub open spec fn escaped(text: Seq<char>) -> Seq<char>
    decreases text.len(),
{
    if text.len() == 0 {
        Seq::empty()
    } else {
        escaped(text.drop_last()) + escaped_char(text.last())
    }
}

/// Reads a label value from behind its opening quote: the text that it stands
/// for, and what follows the closing quote.
pub open spec fn read_label(line: Seq<char>) -> Option<(Seq<char>, Seq<char>)>
    decreases line.len(),
{
    if line.len() == 0 {
        None
    } else if line[0] == '"' {
        Some((Seq::empty(), line.skip(1)))
    } else if line[0] != '\\' {
        match read_label(line.skip(1)) {
            Some((text, rest)) => Some((seq![line[0]] + text, rest)),
            None => None,
        }
    } else if line.len() == 1 {
        None
    } else {
        let c = if line[1] == 'n' {
            '\n'
        } else {
            line[1]
        };
        match read_label(line.skip(2)) {
            Some((text, rest)) => Some((seq![c] + text, rest)),
            None => None,
        }
    }
}

/// A text of which no character is escaped is written as it is.
pub(crate) proof fn lemma_escaped_plain(head: Seq<char>, plain: Seq<char>)
    requires
        forall|i: int|
            0 <= i < plain.len() ==> (#[trigger] plain[i]) != '\\' && plain[i] != '"' && plain[i]
                != '\n',
    ensures
        escaped(head + plain) == escaped(head) + plain,
    decreases plain.len(),
{
    if plain.len() == 0 {
        assert(head + plain =~= head);
        assert(escaped(head) + plain =~= escaped(head));
    } else {
        lemma_escaped_plain(head, plain.drop_last());
        assert((head + plain).drop_last() =~= head + plain.drop_last());
        assert((head + plain).last() == plain.last());
        assert(escaped(head + plain) =~= escaped(head) + plain);
    }
}

fn escape(c: char) -> (res: Option<&'static str>)
    ensures
        match res {
            Some(text) => text@ == escaped_char(c),
            None => c != '\\' && c != '"' && c != '\n',
        },
{
    proof {
        reveal_strlit("\\\\");
        reveal_strlit("\\\"");
        reveal_strlit("\\n");
    }
    let res = if c == '\\' {
        Some("\\\\")
    } else if c == '"' {
        Some("\\\"")
    } else if c == '\n' {
        Some("\\n")
    } else {
        None
    };
    assert(res matches Some(text) ==> text@ =~= escaped_char(c));
    res
}

/// Appends `text` as a label value to `out`.
pub fn push_escaped(out: &mut String, text: &str)
    ensures
        final(out)@ == old(out)@ + escaped(text@),
{
    let length = text.unicode_len();
    let mut start: usize = 0;
    let mut n: usize = 0;
    assert(out@ =~= old(out)@ + escaped(text@.take(0)));
    for c in iter: text.chars()
        invariant
            start <= n <= length,
            n == iter.index(),
            iter.seq() == text@,
            length == text@.len(),
            out@ == old(out)@ + escaped(text@.take(start as int)),
            forall|i: int|
                start <= i < n ==> (#[trigger] text@[i]) != '\\' && text@[i] != '"' && text@[i]
                    != '\n',
    {
        if let Some(text_of_c) = escape(c) {
            out.append(text.substring_char(start, n));
            out.append(text_of_c);
            proof {
                let plain = text@.subrange(start as int, n as int);
                lemma_escaped_plain(text@.take(start as int), plain);
                assert(text@.take(start as int) + plain =~= text@.take(n as int));
                assert(text@.take(n + 1).drop_last() =~= text@.take(n as int));
                assert(out@ =~= old(out)@ + escaped(text@.take(n + 1)));
            }
            start = n + 1;
        }
        n = n + 1;
    }
    out.append(text.substring_char(start, length));
    proof {
        let plain = text@.subrange(start as int, length as int);
        lemma_escaped_plain(text@.take(start as int), plain);
        assert(text@.take(start as int) + plain =~= text@);
        assert(out@ =~= old(out)@ + escaped(text@));
    }
}

/// The first character of a text is written first.
proof fn lemma_escaped_first(text: Seq<char>)
    requires
        text.len() > 0,
    ensures
        escaped(text) == escaped_char(text[0]) + escaped(text.skip(1)),
    decreases text.len(),
{
    if text.len() == 1 {
        assert(text.drop_last() =~= Seq::empty());
        assert(text.skip(1) =~= Seq::empty());
        assert(escaped(text) =~= escaped_char(text[0]) + escaped(text.skip(1)));
    } else {
        lemma_escaped_first(text.drop_last());
        assert(text.drop_last().skip(1) =~= text.skip(1).drop_last());
        assert(escaped(text) =~= escaped_char(text[0]) + escaped(text.skip(1)));
    }
}

/// A label value reads back as the text that it was written for, whatever the
/// text holds and whatever follows the closing quote.
pub proof fn law_label_reads_back(text: Seq<char>, rest: Seq<char>)
    ensures
        read_label(escaped(text) + seq!['"'] + rest) == Some((text, rest)),
    decreases text.len(),
{
    let line = escaped(text) + seq!['"'] + rest;
    if text.len() == 0 {
        assert(line[0] == '"');
        assert(line.skip(1) =~= rest);
        assert(text =~= Seq::empty());
    } else {
        let more = escaped(text.skip(1)) + seq!['"'] + rest;
        lemma_escaped_first(text);
        law_label_reads_back(text.skip(1), rest);
        assert(line =~= escaped_char(text[0]) + more);
        assert(line.skip(escaped_char(text[0]).len() as int) =~= more);
        assert(line[0] == escaped_char(text[0])[0]);
        if escaped_char(text[0]).len() == 2 {
            assert(line[1] == escaped_char(text[0])[1]);
        }
        assert(text =~= seq![text[0]] + text.skip(1));
    }
}

/// A label value tells its text: no two texts are written alike.
pub proof fn law_escaped_tells_text(one: Seq<char>, other: Seq<char>)
    requires
        escaped(one) == escaped(other),
    ensures
        one == other,
{
    law_label_reads_back(one, Seq::empty());
    law_label_reads_back(other, Seq::empty());
}

/// A label value holds no line feed, and no quote without a backslash before it.
pub proof fn law_escaped_stays_between_quotes(text: Seq<char>)
    ensures
        !escaped(text).contains('\n'),
        forall|i: int|
            0 <= i < escaped(text).len() && #[trigger] escaped(text)[i] == '"' ==> i > 0
                && escaped(text)[i - 1] == '\\',
    decreases text.len(),
{
    if text.len() > 0 {
        let head = escaped(text.drop_last());
        law_escaped_stays_between_quotes(text.drop_last());
        assert forall|i: int| 0 <= i < escaped(text).len() implies (
        #[trigger] escaped(text)[i]) != '\n' && (escaped(text)[i] == '"' ==> i > 0 && escaped(text)[i - 1] == '\\') by {
            if i < head.len() {
                assert(escaped(text)[i] == head[i]);
                assert(head.contains(head[i]));
                if i > 0 {
                    assert(escaped(text)[i - 1] == head[i - 1]);
                }
            } else {
                assert(escaped(text)[i] == escaped_char(text.last())[i - head.len()]);
            }
        }
    }
}

} // verus!
