//! The aggregation itself: folding the per-folder inputs, in listed
//! order, into the single output buffer that is written at the end of
//! a run.

use vstd::prelude::*;

use crate::text::{append_bytes, copy_bytes, normalize_header, normalize_line_ending, COMMA, LF};
use crate::ErrorMode;

verus! {

/// The contents of one folder's input file, split as the reader hands
/// it over: the first line (line ending included, when the file has
/// one) and the remaining lines (line endings stripped).
pub struct FileContent {
    /// The first line of the file; empty when the file is empty.
    pub header: Vec<u8>,
    /// Every line after the first, in file order.
    pub body: Vec<Vec<u8>>,
}

/// One folder's contribution to a run: its name and, when the input
/// file exists, the file's contents.
pub struct FolderInput {
    /// The folder's name, as listed on the command line.
    pub name: Vec<u8>,
    /// The input file's contents, or `None` when the file is absent.
    pub content: Option<FileContent>,
}

/// The byte sequences of a sequence of lines.
pub open spec fn views_of(lines: Seq<Vec<u8>>) -> Seq<Seq<u8>> {
    lines.map_values(|l: Vec<u8>| l@)
}

/// One output row: the folder's name, a comma, the line, a line feed.
pub open spec fn body_entry(name: Seq<u8>, line: Seq<u8>) -> Seq<u8> {
    name + seq![COMMA] + line + seq![LF]
}

/// The output's header line: the column label, a comma, and the header
/// with its line ending normalized.
pub open spec fn header_entry(column: Seq<u8>, header: Seq<u8>) -> Seq<u8> {
    column + seq![COMMA] + normalize_line_ending(header)
}

/// The rows contributed by the body lines `body[j..]` of a folder named
/// `name`, in file order.
pub open spec fn body_rows_from(name: Seq<u8>, body: Seq<Seq<u8>>, j: int) -> Seq<u8>
    decreases body.len() - j,
{
    if j < 0 || j >= body.len() {
        Seq::empty()
    } else {
        body_entry(name, body[j]) + body_rows_from(name, body, j + 1)
    }
}

/// Every row a folder's body contributes, in file order.
pub open spec fn body_rows(name: Seq<u8>, body: Seq<Seq<u8>>) -> Seq<u8> {
    body_rows_from(name, body, 0)
}

/// Everything one present folder appends to the output: the header
/// line if no earlier folder supplied one, then its body rows.
pub open spec fn folder_section(
    column: Seq<u8>,
    have_header: bool,
    name: Seq<u8>,
    c: FileContent,
) -> Seq<u8> {
    (if have_header {
        Seq::<u8>::empty()
    } else {
        header_entry(column, c.header@)
    }) + body_rows(name, views_of(c.body@))
}

/// The output of merging `folders[i..]`, starting with the header
/// already emitted iff `have_header`: `Ok` with the output bytes, or
/// `Err` with the name of the first folder whose absent input aborts
/// the run under `ErrorMode::Panic`.
pub open spec fn merged_from(
    folders: Seq<FolderInput>,
    i: int,
    column: Seq<u8>,
    mode: ErrorMode,
    have_header: bool,
) -> Result<Seq<u8>, Seq<u8>>
    decreases folders.len() - i,
{
    if i < 0 || i >= folders.len() {
        Ok(Seq::empty())
    } else {
        match folders[i].content {
            Option::None => {
                if mode is Skip {
                    merged_from(folders, i + 1, column, mode, have_header)
                } else {
                    Err(folders[i].name@)
                }
            },
            Option::Some(c) => {
                match merged_from(folders, i + 1, column, mode, true) {
                    Ok(rest) => Ok(
                        folder_section(column, have_header, folders[i].name@, c) + rest,
                    ),
                    Err(e) => Err(e),
                }
            },
        }
    }
}

/// The output of a whole run over the given folder inputs.
pub open spec fn merged(folders: Seq<FolderInput>, column: Seq<u8>, mode: ErrorMode) -> Result<
    Seq<u8>,
    Seq<u8>,
> {
    merged_from(folders, 0, column, mode, false)
}

/// Accumulates the output of a run, one folder at a time, in the order
/// the folders were listed.
pub struct Aggregator {
    /// The label of the added first column.
    pub column: Vec<u8>,
    /// The run's policy for absent input files.
    pub mode: ErrorMode,
    /// The output accumulated so far; append-only.
    pub buffer: Vec<u8>,
    /// Whether some processed folder has already supplied the header.
    pub have_header: bool,
}

impl Aggregator {
    /// Starts a run: empty buffer, no header seen yet.
    pub fn new(column: Vec<u8>, mode: ErrorMode) -> (r: Aggregator)
        ensures
            r.column@ == column@,
            r.mode == mode,
            r.buffer@ == Seq::<u8>::empty(),
            !r.have_header,
    {
        Aggregator { column, mode, buffer: Vec::new(), have_header: false }
    }

    /// Folds one folder into the output. A present file appends its
    /// section (header line first, if still owed) and marks the header
    /// as emitted; an absent file either leaves the state untouched
    /// (`Skip`) or aborts with the folder's name (`Panic`).
    pub fn process_folder(&mut self, name: &Vec<u8>, content: &Option<FileContent>) -> (r: Result<
        (),
        Vec<u8>,
    >)
        ensures
            final(self).column@ == old(self).column@,
            final(self).mode == old(self).mode,
            (match content {
                Option::Some(c) => {
                    &&& r is Ok
                    &&& final(self).have_header
                    &&& final(self).buffer@ == old(self).buffer@ + folder_section(
                        old(self).column@,
                        old(self).have_header,
                        name@,
                        *c,
                    )
                },
                Option::None => {
                    &&& final(self).buffer@ == old(self).buffer@
                    &&& final(self).have_header == old(self).have_header
                    &&& if old(self).mode is Skip {
                        r is Ok
                    } else {
                        r is Err && r->Err_0@ == name@
                    }
                },
            }),
    {
        match content {
            Option::None => {
                if self.mode == ErrorMode::Skip {
                    Ok(())
                } else {
                    Err(copy_bytes(name))
                }
            },
            Option::Some(c) => {
                let ghost start = self.buffer@;
                let ghost hh = self.have_header;
                if !self.have_header {
                    append_bytes(&mut self.buffer, &self.column);
                    self.buffer.push(COMMA);
                    let nh = normalize_header(&c.header);
                    append_bytes(&mut self.buffer, &nh);
                    self.have_header = true;
                    proof {
                        assert(self.buffer@ =~= start + header_entry(self.column@, c.header@));
                    }
                }
                let ghost section_start = self.buffer@;
                let ghost rows = views_of(c.body@);
                let mut j: usize = 0;
                while j < c.body.len()
                    invariant
                        j <= c.body.len(),
                        rows == views_of(c.body@),
                        rows.len() == c.body@.len(),
                        self.column@ == old(self).column@,
                        self.mode == old(self).mode,
                        self.have_header,
                        section_start + body_rows(name@, rows) == self.buffer@ + body_rows_from(
                            name@,
                            rows,
                            j as int,
                        ),
                    decreases c.body.len() - j,
                {
                    let ghost row_start = self.buffer@;
                    append_bytes(&mut self.buffer, name);
                    self.buffer.push(COMMA);
                    append_bytes(&mut self.buffer, &c.body[j]);
                    self.buffer.push(LF);
                    proof {
                        assert(rows[j as int] == c.body@[j as int]@);
                        assert(self.buffer@ =~= row_start + body_entry(name@, rows[j as int]));
                        assert(row_start + body_entry(name@, rows[j as int]) + body_rows_from(
                            name@,
                            rows,
                            j as int + 1,
                        ) =~= row_start + body_rows_from(name@, rows, j as int));
                    }
                    j = j + 1;
                }
                proof {
                    assert(body_rows_from(name@, rows, j as int) =~= Seq::<u8>::empty());
                    assert(self.buffer@ + Seq::<u8>::empty() =~= self.buffer@);
                    assert(self.buffer@ =~= section_start + body_rows(name@, rows));
                    assert(self.buffer@ =~= start + folder_section(
                        old(self).column@,
                        hh,
                        name@,
                        *c,
                    ));
                }
                Ok(())
            },
        }
    }

    /// Ends the run, handing over the accumulated output bytes.
    pub fn finish(self) -> (r: Vec<u8>)
        ensures
            r@ == self.buffer@,
    {
        self.buffer
    }
}

/// Merges a whole run's folder inputs in one call: the exact output
/// bytes on success, or the name of the folder whose absent input
/// aborted the run.
pub fn merge_all(column: &Vec<u8>, mode: ErrorMode, folders: &Vec<FolderInput>) -> (r: Result<
    Vec<u8>,
    Vec<u8>,
>)
    ensures
        (match merged(folders@, column@, mode) {
            Ok(s) => r is Ok && r->Ok_0@ == s,
            Err(e) => r is Err && r->Err_0@ == e,
        }),
{
    let mut agg = Aggregator::new(copy_bytes(column), mode);
    let mut i: usize = 0;
    while i < folders.len()
        invariant
            i <= folders.len(),
            agg.column@ == column@,
            agg.mode == mode,
            merged(folders@, column@, mode) == (match merged_from(
                folders@,
                i as int,
                column@,
                mode,
                agg.have_header,
            ) {
                Ok(rest) => Ok::<Seq<u8>, Seq<u8>>(agg.buffer@ + rest),
                Err(e) => Err::<Seq<u8>, Seq<u8>>(e),
            }),
        decreases folders.len() - i,
    {
        let ghost pre = agg;
        let f = &folders[i];
        let step = agg.process_folder(&f.name, &f.content);
        proof {
            if f.content is Some {
                let c = f.content->Some_0;
                let section = folder_section(column@, pre.have_header, f.name@, c);
                if merged_from(folders@, i as int + 1, column@, mode, true) is Ok {
                    let rest = merged_from(folders@, i as int + 1, column@, mode, true)->Ok_0;
                    assert(pre.buffer@ + (section + rest) =~= (pre.buffer@ + section) + rest);
                }
            }
        }
        match step {
            Ok(()) => {},
            Err(e) => {
                return Err(e);
            },
        }
        i = i + 1;
    }
    proof {
        assert(merged_from(folders@, i as int, column@, mode, agg.have_header) == Ok::<
            Seq<u8>,
            Seq<u8>,
        >(Seq::empty()));
        assert(agg.buffer@ + Seq::<u8>::empty() =~= agg.buffer@);
    }
    Ok(agg.finish())
}

} // verus!
