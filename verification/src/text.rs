//! Byte-level text operations used by the merge: splitting a
//! comma-delimited folder list, building input paths, and normalizing
//! the line ending of a header line.

use vstd::prelude::*;

verus! {

/// The delimiter between folder names on the command line, and the
/// separator written between a row's prefix and the row itself.
pub const COMMA: u8 = 44;

/// The path separator placed between a directory and its child.
pub const SLASH: u8 = 47;

/// Carriage return, the first byte of a Windows-style line ending.
pub const CR: u8 = 13;

/// Line feed, the line ending the output is normalized to.
pub const LF: u8 = 10;

/// Splits `s` at every comma. Empty segments are kept, so the result
/// always has one more element than `s` has commas; an empty input
/// yields one empty segment.
pub open spec fn split_commas(s: Seq<u8>) -> Seq<Seq<u8>>
    decreases s.len(),
{
    if s.len() == 0 {
        seq![Seq::<u8>::empty()]
    } else if s[0] == COMMA {
        seq![Seq::<u8>::empty()] + split_commas(s.skip(1))
    } else {
        let rest = split_commas(s.skip(1));
        seq![seq![s[0]] + rest[0]] + rest.skip(1)
    }
}

/// A split always produces at least one segment.
pub proof fn lemma_split_commas_nonempty(s: Seq<u8>)
    ensures
        split_commas(s).len() >= 1,
    decreases s.len(),
{
    if s.len() != 0 {
        lemma_split_commas_nonempty(s.skip(1));
    }
}

/// Extends the first segment of `parts` with `piece` on the left.
/// Describes the state of a split in progress: `piece` is the part of
/// the current segment that has already been scanned.
spec fn glue_front(piece: Seq<u8>, parts: Seq<Seq<u8>>) -> Seq<Seq<u8>> {
    seq![piece + parts[0]] + parts.skip(1)
}

/// Splits a comma-delimited list of folder names into the individual
/// names, in order, with no trimming: empty segments pass through as
/// literal empty names.
pub fn split_names(s: &Vec<u8>) -> (r: Vec<Vec<u8>>)
    ensures
        r@.map_values(|p: Vec<u8>| p@) == split_commas(s@),
{
    let ghost whole: Seq<u8> = s@;
    let mut out: Vec<Vec<u8>> = Vec::new();
    let mut cur: Vec<u8> = Vec::new();
    let mut i: usize = 0;
    proof {
        assert(whole.skip(0) =~= whole);
    }
    while i < s.len()
        invariant
            i <= s.len(),
            s@ == whole,
            split_commas(whole) == out@.map_values(|p: Vec<u8>| p@) + glue_front(
                cur@,
                split_commas(whole.skip(i as int)),
            ),
        decreases s.len() - i,
    {
        let ghost pre_out = out@;
        let ghost pre_cur = cur@;
        let ghost tail = whole.skip(i as int);
        proof {
            assert(tail.len() > 0);
            assert(tail[0] == whole[i as int]);
            assert(tail.skip(1) =~= whole.skip(i as int + 1));
            lemma_split_commas_nonempty(whole.skip(i as int + 1));
        }
        if s[i] == COMMA {
            out.push(cur);
            cur = Vec::new();
            proof {
                assert(out@.map_values(|p: Vec<u8>| p@) =~= pre_out.map_values(|p: Vec<u8>| p@)
                    + seq![pre_cur]);
                assert(split_commas(tail) == seq![Seq::<u8>::empty()] + split_commas(
                    whole.skip(i as int + 1),
                ));
                assert(pre_cur + Seq::<u8>::empty() =~= pre_cur);
                assert(glue_front(pre_cur, split_commas(tail)) =~= seq![pre_cur] + glue_front(
                    Seq::<u8>::empty(),
                    split_commas(whole.skip(i as int + 1)),
                ));
                assert(split_commas(whole) =~= out@.map_values(|p: Vec<u8>| p@) + glue_front(
                    cur@,
                    split_commas(whole.skip(i as int + 1)),
                ));
            }
        } else {
            let b = s[i];
            cur.push(b);
            proof {
                let rest = split_commas(whole.skip(i as int + 1));
                assert(split_commas(tail) == seq![seq![whole[i as int]] + rest[0]] + rest.skip(1));
                assert(pre_cur + (seq![b] + rest[0]) =~= (pre_cur.push(b)) + rest[0]);
                assert((seq![seq![whole[i as int]] + rest[0]] + rest.skip(1)).skip(1) =~= rest.skip(
                    1,
                ));
                assert(glue_front(pre_cur, split_commas(tail)) =~= glue_front(cur@, rest));
            }
        }
        i = i + 1;
    }
    proof {
        assert(whole.skip(i as int).len() == 0);
        assert(split_commas(whole.skip(i as int)) == seq![Seq::<u8>::empty()]);
        assert(cur@ + Seq::<u8>::empty() =~= cur@);
        assert(glue_front(cur@, split_commas(whole.skip(i as int))) =~= seq![cur@]);
    }
    let ghost pre_out = out@;
    out.push(cur);
    proof {
        assert(out@.map_values(|p: Vec<u8>| p@) =~= pre_out.map_values(|p: Vec<u8>| p@) + seq![
            cur@,
        ]);
        assert(out@.map_values(|p: Vec<u8>| p@) =~= split_commas(whole));
    }
    out
}

/// Appends every byte of `src` to `out`.
pub fn append_bytes(out: &mut Vec<u8>, src: &Vec<u8>)
    ensures
        final(out)@ == old(out)@ + src@,
{
    let mut i: usize = 0;
    while i < src.len()
        invariant
            i <= src.len(),
            out@ == old(out)@ + src@.take(i as int),
        decreases src.len() - i,
    {
        out.push(src[i]);
        proof {
            assert(old(out)@ + src@.take(i as int) + seq![src@[i as int]] =~= old(out)@
                + src@.take(i as int + 1));
        }
        i = i + 1;
    }
    proof {
        assert(src@.take(i as int) =~= src@);
    }
}

/// Returns a copy of the bytes of `src`.
pub fn copy_bytes(src: &Vec<u8>) -> (r: Vec<u8>)
    ensures
        r@ == src@,
{
    let mut out: Vec<u8> = Vec::new();
    append_bytes(&mut out, src);
    proof {
        assert(Seq::<u8>::empty() + src@ =~= src@);
    }
    out
}

/// The path of a child entry under a base directory: the two joined by
/// a slash, except that an empty base contributes nothing and a base
/// that already ends in a slash gets no second one.
pub open spec fn join_path(base: Seq<u8>, child: Seq<u8>) -> Seq<u8> {
    if base.len() == 0 {
        child
    } else if base.last() == SLASH {
        base + child
    } else {
        base + seq![SLASH] + child
    }
}

/// Builds the path `root/folder/filename` at which a folder's input
/// file is looked for.
pub fn resolve_input_path(root: &Vec<u8>, folder: &Vec<u8>, filename: &Vec<u8>) -> (r: Vec<u8>)
    ensures
        r@ == join_path(join_path(root@, folder@), filename@),
{
    let dir = join_one(root, folder);
    let r = join_one(&dir, filename);
    r
}

/// Joins one child onto one base directory.
fn join_one(base: &Vec<u8>, child: &Vec<u8>) -> (r: Vec<u8>)
    ensures
        r@ == join_path(base@, child@),
{
    let mut out = copy_bytes(base);
    if base.len() > 0 && base[base.len() - 1] != SLASH {
        out.push(SLASH);
        proof {
            assert(base@ + seq![SLASH] =~= base@.push(SLASH));
        }
    }
    append_bytes(&mut out, child);
    out
}

/// Replaces a trailing carriage-return/line-feed pair with a bare line
/// feed; any other content is left untouched. A header line holds a
/// line feed only at its end, so this normalizes every line-ending
/// variant the header can carry.
pub open spec fn normalize_line_ending(h: Seq<u8>) -> Seq<u8> {
    if h.len() >= 2 && h[h.len() - 2] == CR && h[h.len() - 1] == LF {
        h.take(h.len() - 2) + seq![LF]
    } else {
        h
    }
}

/// Normalizes the line ending of a header line read from an input file.
pub fn normalize_header(h: &Vec<u8>) -> (r: Vec<u8>)
    ensures
        r@ == normalize_line_ending(h@),
{
    let mut out = copy_bytes(h);
    if h.len() >= 2 && h[h.len() - 2] == CR && h[h.len() - 1] == LF {
        out.pop();
        out.pop();
        out.push(LF);
        proof {
            assert(h@.subrange(0, h@.len() - 1).subrange(0, h@.len() - 2) =~= h@.take(
                h@.len() - 2,
            ));
            assert(h@.take(h@.len() - 2).push(LF) =~= h@.take(h@.len() - 2) + seq![LF]);
        }
    }
    out
}

} // verus!
