use vstd::prelude::*;
use vstd::slice::slice_subrange;

verus! {

/// The newline byte that separates lines.
pub const NL: u8 = 10;

/// The space byte.
pub const SP: u8 = 32;

/// The horizontal tab byte.
pub const TAB: u8 = 9;

/// The carriage-return byte.
pub const CR: u8 = 13;

/// The vertical-tab byte.
pub const VT: u8 = 11;

/// The form-feed byte.
pub const FF: u8 = 12;

/// The slash byte; two of them open a comment line.
pub const SLASH: u8 = 47;

/// A single-byte blank that may precede a comment marker: space,
/// horizontal tab, vertical tab, form feed or carriage return.
pub open spec fn is_blank(b: u8) -> bool {
    b == SP || b == TAB || b == VT || b == FF || b == CR
}

/// A two-byte UTF-8 blank: the next-line character (U+0085) or the
/// no-break space (U+00A0).
pub open spec fn is_blank_pair(a: u8, b: u8) -> bool {
    a == 0xC2 && (b == 0x85 || b == 0xA0)
}

/// A three-byte UTF-8 blank: the Ogham space mark (U+1680), the
/// typographic spaces U+2000 through U+200A, the line and paragraph
/// separators (U+2028, U+2029), the narrow no-break space (U+202F), the
/// medium mathematical space (U+205F) or the ideographic space (U+3000).
pub open spec fn is_blank_triple(a: u8, b: u8, c: u8) -> bool {
    (a == 0xE1 && b == 0x9A && c == 0x80) || (a == 0xE2 && b == 0x80 && (0x80 <= c <= 0x8A || c
        == 0xA8 || c == 0xA9 || c == 0xAF)) || (a == 0xE2 && b == 0x81 && c == 0x9F) || (a == 0xE3
        && b == 0x80 && c == 0x80)
}

/// The line without its leading whitespace: the blanks above are exactly
/// the UTF-8 encodings of the Unicode whitespace characters, so on valid
/// UTF-8 this skips what a character-level trim of the front would.
pub open spec fn skip_blanks(s: Seq<u8>) -> Seq<u8>
    decreases s.len(),
{
    if s.len() >= 1 && is_blank(s[0]) {
        skip_blanks(s.skip(1))
    } else if s.len() >= 2 && is_blank_pair(s[0], s[1]) {
        skip_blanks(s.skip(2))
    } else if s.len() >= 3 && is_blank_triple(s[0], s[1], s[2]) {
        skip_blanks(s.skip(3))
    } else {
        s
    }
}

/// A comment line: after its leading whitespace it starts with two
/// slashes.
pub open spec fn is_comment_line(s: Seq<u8>) -> bool {
    skip_blanks(s).len() >= 2 && skip_blanks(s)[0] == SLASH && skip_blanks(s)[1] == SLASH
}

/// The text cut into lines at each newline byte; the newline belongs to no
/// line, and the text after the last newline — empty or not — is a line of
/// its own, so there is always at least one line.
pub open spec fn split_lines(s: Seq<u8>) -> Seq<Seq<u8>>
    decreases s.len(),
{
    if s.len() == 0 {
        seq![Seq::<u8>::empty()]
    } else if s[0] == NL {
        seq![Seq::<u8>::empty()].add(split_lines(s.drop_first()))
    } else {
        let rest = split_lines(s.drop_first());
        seq![seq![s[0]].add(rest[0])].add(rest.drop_first())
    }
}

/// What one line contributes to the output: nothing when it is a comment
/// line, else the line followed by a newline.
pub open spec fn keep_line(l: Seq<u8>) -> Seq<u8> {
    if is_comment_line(l) {
        Seq::<u8>::empty()
    } else {
        l.push(NL)
    }
}

/// The contributions of all lines, in order.
pub open spec fn join_kept(lines: Seq<Seq<u8>>) -> Seq<u8>
    decreases lines.len(),
{
    if lines.len() == 0 {
        Seq::<u8>::empty()
    } else {
        keep_line(lines[0]).add(join_kept(lines.drop_first()))
    }
}

/// The whole transformation: every comment line of the text is dropped,
/// every other line is kept unchanged, and each kept line — the last one
/// included — is closed with a newline.
pub open spec fn strip_comments(s: Seq<u8>) -> Seq<u8> {
    join_kept(split_lines(s))
}

proof fn lemma_split_lines_no_nl(s: Seq<u8>)
    requires
        forall|k: int| 0 <= k < s.len() ==> s[k] != NL,
    ensures
        split_lines(s) == seq![s],
    decreases s.len(),
{
    if s.len() == 0 {
        assert(split_lines(s) =~~= seq![s]);
    } else {
        let t = s.drop_first();
        assert(forall|k: int| 0 <= k < t.len() ==> t[k] == s[k + 1]);
        lemma_split_lines_no_nl(t);
        let rest = split_lines(t);
        assert(rest[0] == t);
        assert(seq![s[0]].add(t) =~= s);
        assert(rest.drop_first() =~~= Seq::<Seq<u8>>::empty());
        assert(split_lines(s) =~~= seq![s]);
    }
}

proof fn lemma_split_lines_at_nl(s: Seq<u8>, e: int)
    requires
        0 <= e < s.len(),
        s[e] == NL,
        forall|k: int| 0 <= k < e ==> s[k] != NL,
    ensures
        split_lines(s) == seq![s.subrange(0, e)].add(
            split_lines(s.subrange(e + 1, s.len() as int)),
        ),
    decreases e,
{
    if e == 0 {
        assert(split_lines(s) == seq![Seq::<u8>::empty()].add(split_lines(s.drop_first())));
        assert(s.subrange(0, 0) =~= Seq::<u8>::empty());
        assert(s.drop_first() =~= s.subrange(1, s.len() as int));
    } else {
        let t = s.drop_first();
        assert(forall|k: int| 0 <= k < t.len() ==> t[k] == s[k + 1]);
        assert(t[e - 1] == NL);
        lemma_split_lines_at_nl(t, e - 1);
        let rest = split_lines(t);
        assert(rest[0] == t.subrange(0, e - 1));
        assert(seq![s[0]].add(t.subrange(0, e - 1)) =~= s.subrange(0, e));
        assert(rest.drop_first() =~~= split_lines(t.subrange(e, t.len() as int)));
        assert(t.subrange(e, t.len() as int) =~= s.subrange(e + 1, s.len() as int));
        assert(split_lines(s) =~~= seq![s.subrange(0, e)].add(
            split_lines(s.subrange(e + 1, s.len() as int)),
        ));
    }
}

proof fn lemma_join_kept_cons(l: Seq<u8>, rest: Seq<Seq<u8>>)
    ensures
        join_kept(seq![l].add(rest)) == keep_line(l).add(join_kept(rest)),
{
    let all = seq![l].add(rest);
    assert(all[0] == l);
    assert(all.drop_first() =~~= rest);
}

/// How far the leading whitespace reaches at position `k`: the width in
/// bytes of the one blank character starting there, or zero when none
/// does.
fn blank_step(line: &[u8], k: usize) -> (d: usize)
    requires
        k < line@.len(),
    ensures
        d <= 3,
        k + d <= line@.len(),
        d > 0 ==> skip_blanks(line@.skip(k as int)) == skip_blanks(line@.skip(k as int + d)),
        d == 0 ==> skip_blanks(line@.skip(k as int)) == line@.skip(k as int),
{
    let n = line.len();
    let b0 = line[k];
    let ghost s = line@.skip(k as int);
    proof {
        assert(s.len() == n - k);
        assert(forall|m: int| 0 <= m < s.len() ==> s[m] == line@[k as int + m]);
    }
    if b0 == SP || b0 == TAB || b0 == VT || b0 == FF || b0 == CR {
        proof {
            assert(s.skip(1) =~= line@.skip(k as int + 1));
        }
        1
    } else if n - k >= 2 && b0 == 0xC2 && (line[k + 1] == 0x85 || line[k + 1] == 0xA0) {
        proof {
            assert(s.skip(2) =~= line@.skip(k as int + 2));
        }
        2
    } else if n - k >= 3 && ((b0 == 0xE1 && line[k + 1] == 0x9A && line[k + 2] == 0x80) || (b0
        == 0xE2 && line[k + 1] == 0x80 && (line[k + 2] >= 0x80 && line[k + 2] <= 0x8A || line[k
        + 2] == 0xA8 || line[k + 2] == 0xA9 || line[k + 2] == 0xAF)) || (b0 == 0xE2 && line[k + 1]
        == 0x81 && line[k + 2] == 0x9F) || (b0 == 0xE3 && line[k + 1] == 0x80 && line[k + 2]
        == 0x80)) {
        proof {
            assert(s.skip(3) =~= line@.skip(k as int + 3));
        }
        3
    } else {
        proof {
            assert(!(s.len() >= 1 && is_blank(s[0])));
            assert(s.len() >= 2 ==> !is_blank_pair(s[0], s[1]));
            assert(s.len() >= 3 ==> !is_blank_triple(s[0], s[1], s[2]));
        }
        0
    }
}

/// Whether the line is a comment line: after any run of whitespace
/// characters it starts with two slashes.
fn line_is_comment(line: &[u8]) -> (r: bool)
    ensures
        r == is_comment_line(line@),
{
    let n = line.len();
    let mut k: usize = 0;
    let mut more: usize = 1;
    proof {
        assert(line@.skip(0) =~= line@);
    }
    while more == 1 && k < n
        invariant
            k <= n,
            n == line@.len(),
            more <= 1,
            skip_blanks(line@) == skip_blanks(line@.skip(k as int)),
            more == 0 ==> skip_blanks(line@.skip(k as int)) == line@.skip(k as int),
        decreases n - k + more,
    {
        let d = blank_step(line, k);
        if d == 0 {
            more = 0;
        } else {
            k = k + d;
        }
    }
    proof {
        if k == n {
            assert(line@.skip(k as int) =~= Seq::<u8>::empty());
        }
        assert(skip_blanks(line@) == line@.skip(k as int));
    }
    if n - k >= 2 {
        proof {
            assert(skip_blanks(line@)[0] == line@[k as int]);
            assert(skip_blanks(line@)[1] == line@[k as int + 1]);
        }
        line[k] == SLASH && line[k + 1] == SLASH
    } else {
        false
    }
}

/// Drops every comment line from the text and keeps all others unchanged,
/// closing each kept line with a newline. The relay's configuration file
/// is read through this: a JSON document whose comment lines are removed
/// before parsing.
pub fn strip_comment_lines(src: &[u8]) -> (out: Vec<u8>)
    ensures
        out@ == strip_comments(src@),
{
    let n = src.len();
    let mut out: Vec<u8> = Vec::new();
    let mut start: usize = 0;
    let mut j: usize = 0;
    proof {
        assert(src@.subrange(0, n as int) =~= src@);
        assert(Seq::<u8>::empty().add(strip_comments(src@)) =~= strip_comments(src@));
    }
    while j < n
        invariant
            start <= j,
            j <= n,
            n == src@.len(),
            forall|m: int| start <= m < j ==> src@[m] != NL,
            strip_comments(src@) == out@.add(
                join_kept(split_lines(src@.subrange(start as int, n as int))),
            ),
        decreases n - j,
    {
        if src[j] == NL {
            let ghost suffix = src@.subrange(start as int, n as int);
            let ghost tail = src@.subrange(j as int + 1, n as int);
            let piece = slice_subrange(src, start, j);
            proof {
                assert(forall|m: int|
                    0 <= m < suffix.len() ==> suffix[m] == src@[start as int + m]);
                assert(suffix[j - start as int] == NL);
                lemma_split_lines_at_nl(suffix, j - start as int);
                assert(suffix.subrange(0, j - start as int) =~= piece@);
                assert(suffix.subrange(j - start as int + 1, suffix.len() as int) =~= tail);
                lemma_join_kept_cons(piece@, split_lines(tail));
                assert(join_kept(split_lines(suffix)) == keep_line(piece@).add(
                    join_kept(split_lines(tail)),
                ));
            }
            let ghost out0 = out@;
            if !line_is_comment(piece) {
                out.extend_from_slice(piece);
                out.push(NL);
                proof {
                    assert(out@ =~= out0.add(keep_line(piece@)));
                }
            } else {
                proof {
                    assert(out@ =~= out0.add(keep_line(piece@)));
                }
            }
            proof {
                assert(out0.add(keep_line(piece@).add(join_kept(split_lines(tail)))) =~= out@.add(
                    join_kept(split_lines(tail)),
                ));
            }
            start = j + 1;
        }
        j = j + 1;
    }
    let ghost suffix = src@.subrange(start as int, n as int);
    let piece = slice_subrange(src, start, n);
    proof {
        assert(forall|m: int| 0 <= m < suffix.len() ==> suffix[m] == src@[start as int + m]);
        lemma_split_lines_no_nl(suffix);
        assert(suffix =~= piece@);
        assert(seq![piece@].drop_first() =~~= Seq::<Seq<u8>>::empty());
        assert(join_kept(split_lines(suffix)) == keep_line(piece@).add(
            join_kept(Seq::<Seq<u8>>::empty()),
        ));
    }
    let ghost out0 = out@;
    if !line_is_comment(piece) {
        out.extend_from_slice(piece);
        out.push(NL);
        proof {
            assert(out@ =~= out0.add(keep_line(piece@)));
        }
    } else {
        proof {
            assert(out@ =~= out0.add(keep_line(piece@)));
        }
    }
    proof {
        assert(out0.add(keep_line(piece@).add(join_kept(Seq::<Seq<u8>>::empty()))) =~= out@);
    }
    out
}

} // verus!
