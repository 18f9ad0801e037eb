//! The guarantees the merge gives as a whole: what the output looks
//! like when every input is present, that skipping an absent folder
//! changes nothing else, that the abort policy stops the run at the
//! first absent input, and that the merge is a function of its inputs.

use vstd::prelude::*;

use crate::aggregate::{
    body_rows, folder_section, header_entry, merged, merged_from, views_of, FolderInput,
};
use crate::ErrorMode;

verus! {

/// The body rows contributed by `folders[i..]`: each present folder's
/// rows in file order, folders in listed order, absent folders
/// contributing nothing.
pub open spec fn body_sections_from(folders: Seq<FolderInput>, i: int) -> Seq<u8>
    decreases folders.len() - i,
{
    if i < 0 || i >= folders.len() {
        Seq::empty()
    } else {
        match folders[i].content {
            Option::Some(c) => body_rows(folders[i].name@, views_of(c.body@))
                + body_sections_from(folders, i + 1),
            Option::None => body_sections_from(folders, i + 1),
        }
    }
}

/// The index of the first folder at or after `i` whose input is
/// present, or the folder count when none is.
pub open spec fn first_present(folders: Seq<FolderInput>, i: int) -> int
    decreases folders.len() - i,
{
    if i < 0 || i >= folders.len() {
        folders.len() as int
    } else if folders[i].content is Some {
        i
    } else {
        first_present(folders, i + 1)
    }
}

/// The header line a Skip-mode merge of `folders[i..]` emits: the one
/// of the first present folder, or nothing when every input is absent.
pub open spec fn skip_header(folders: Seq<FolderInput>, i: int, column: Seq<u8>) -> Seq<u8> {
    let fp = first_present(folders, i);
    if fp < folders.len() {
        header_entry(column, folders[fp].content->Some_0.header@)
    } else {
        Seq::empty()
    }
}

proof fn lemma_all_present_structure(
    folders: Seq<FolderInput>,
    i: int,
    column: Seq<u8>,
    mode: ErrorMode,
)
    requires
        0 <= i <= folders.len(),
        forall|j: int| i <= j < folders.len() ==> folders[j].content is Some,
    ensures
        merged_from(folders, i, column, mode, true) == Ok::<Seq<u8>, Seq<u8>>(
            body_sections_from(folders, i),
        ),
        i < folders.len() ==> merged_from(folders, i, column, mode, false) == Ok::<
            Seq<u8>,
            Seq<u8>,
        >(header_entry(column, folders[i].content->Some_0.header@) + body_sections_from(
            folders,
            i,
        )),
    decreases folders.len() - i,
{
    if i < folders.len() {
        lemma_all_present_structure(folders, i + 1, column, mode);
        let c = folders[i].content->Some_0;
        let name = folders[i].name@;
        let rows = body_rows(name, views_of(c.body@));
        let rest = body_sections_from(folders, i + 1);
        assert(folder_section(column, true, name, c) =~= rows);
        assert(rows + rest =~= body_sections_from(folders, i));
        assert(folder_section(column, false, name, c) + rest =~= header_entry(column, c.header@)
            + body_sections_from(folders, i));
    }
}

/// Law: when every listed folder's input file is present, the merge
/// succeeds under either error mode, and the output is exactly one
/// header line — the column label joined to the first folder's header —
/// followed by every folder's body rows, folders in listed order.
pub proof fn lemma_merge_all_present(folders: Seq<FolderInput>, column: Seq<u8>, mode: ErrorMode)
    requires
        folders.len() > 0,
        forall|j: int| 0 <= j < folders.len() ==> folders[j].content is Some,
    ensures
        merged(folders, column, mode) == Ok::<Seq<u8>, Seq<u8>>(
            header_entry(column, folders[0].content->Some_0.header@) + body_sections_from(
                folders,
                0,
            ),
        ),
{
    lemma_all_present_structure(folders, 0, column, mode);
}

proof fn lemma_skip_structure(folders: Seq<FolderInput>, i: int, column: Seq<u8>)
    requires
        0 <= i <= folders.len(),
    ensures
        merged_from(folders, i, column, ErrorMode::Skip, true) == Ok::<Seq<u8>, Seq<u8>>(
            body_sections_from(folders, i),
        ),
        merged_from(folders, i, column, ErrorMode::Skip, false) == Ok::<Seq<u8>, Seq<u8>>(
            skip_header(folders, i, column) + body_sections_from(folders, i),
        ),
    decreases folders.len() - i,
{
    if i >= folders.len() {
        assert(skip_header(folders, i, column) + body_sections_from(folders, i) =~= Seq::<
            u8,
        >::empty());
    } else {
        lemma_skip_structure(folders, i + 1, column);
        match folders[i].content {
            Option::Some(c) => {
                let name = folders[i].name@;
                let rows = body_rows(name, views_of(c.body@));
                let rest = body_sections_from(folders, i + 1);
                assert(folder_section(column, true, name, c) =~= rows);
                assert(rows + rest =~= body_sections_from(folders, i));
                assert(first_present(folders, i) == i);
                assert(folder_section(column, false, name, c) + rest =~= skip_header(
                    folders,
                    i,
                    column,
                ) + body_sections_from(folders, i));
            },
            Option::None => {
                assert(first_present(folders, i) == first_present(folders, i + 1));
                assert(body_sections_from(folders, i) == body_sections_from(folders, i + 1));
            },
        }
    }
}

/// Law: under Skip mode the merge never aborts; the output is the
/// header line of the first folder whose input is present (no header
/// line at all when none is), followed by every present folder's body
/// rows, folders in listed order.
pub proof fn lemma_merge_skip_never_aborts(folders: Seq<FolderInput>, column: Seq<u8>)
    ensures
        merged(folders, column, ErrorMode::Skip) == Ok::<Seq<u8>, Seq<u8>>(
            skip_header(folders, 0, column) + body_sections_from(folders, 0),
        ),
{
    lemma_skip_structure(folders, 0, column);
}

proof fn lemma_merged_shift(
    folders: Seq<FolderInput>,
    k: int,
    j: int,
    column: Seq<u8>,
    mode: ErrorMode,
    have_header: bool,
)
    requires
        0 <= k < folders.len(),
        k <= j <= folders.len() - 1,
    ensures
        merged_from(folders.remove(k), j, column, mode, have_header) == merged_from(
            folders,
            j + 1,
            column,
            mode,
            have_header,
        ),
    decreases folders.len() - j,
{
    let g = folders.remove(k);
    assert(g.len() == folders.len() - 1);
    if j < g.len() {
        assert(g[j] == folders[j + 1]);
        lemma_merged_shift(folders, k, j + 1, column, mode, have_header);
        lemma_merged_shift(folders, k, j + 1, column, mode, true);
    }
}

proof fn lemma_merged_remove_absent(
    folders: Seq<FolderInput>,
    k: int,
    i: int,
    column: Seq<u8>,
    have_header: bool,
)
    requires
        0 <= i <= k < folders.len(),
        folders[k].content is None,
    ensures
        merged_from(folders.remove(k), i, column, ErrorMode::Skip, have_header) == merged_from(
            folders,
            i,
            column,
            ErrorMode::Skip,
            have_header,
        ),
    decreases k - i,
{
    let g = folders.remove(k);
    if i == k {
        assert(merged_from(folders, k, column, ErrorMode::Skip, have_header) == merged_from(
            folders,
            k + 1,
            column,
            ErrorMode::Skip,
            have_header,
        ));
        if k <= g.len() - 1 {
            lemma_merged_shift(folders, k, k, column, ErrorMode::Skip, have_header);
        }
    } else {
        assert(g[i] == folders[i]);
        lemma_merged_remove_absent(folders, k, i + 1, column, have_header);
        lemma_merged_remove_absent(folders, k, i + 1, column, true);
    }
}

/// Law: under Skip mode a folder whose input file is absent contributes
/// nothing: the run's output equals the output of the same run with
/// that folder left off the list, so every other folder is still
/// processed exactly as before.
pub proof fn lemma_skip_absent_contributes_nothing(
    folders: Seq<FolderInput>,
    k: int,
    column: Seq<u8>,
)
    requires
        0 <= k < folders.len(),
        folders[k].content is None,
    ensures
        merged(folders, column, ErrorMode::Skip) == merged(
            folders.remove(k),
            column,
            ErrorMode::Skip,
        ),
{
    if k == 0 {
        lemma_merged_shift(folders, 0, 0, column, ErrorMode::Skip, false);
    } else {
        lemma_merged_remove_absent(folders, k, 0, column, false);
    }
}

proof fn lemma_panic_structure(folders: Seq<FolderInput>, i: int, k: int, column: Seq<u8>, have_header: bool)
    requires
        0 <= i <= k < folders.len(),
        folders[k].content is None,
        forall|j: int| i <= j < k ==> folders[j].content is Some,
    ensures
        merged_from(folders, i, column, ErrorMode::Panic, have_header) == Err::<Seq<u8>, Seq<u8>>(
            folders[k].name@,
        ),
    decreases k - i,
{
    if i < k {
        lemma_panic_structure(folders, i + 1, k, column, true);
    }
}

/// Law: under Panic mode (the default) the run aborts with the name of
/// the first folder whose input file is absent; whatever folders are
/// listed after it, no output is produced.
pub proof fn lemma_panic_aborts_on_first_absent(
    folders: Seq<FolderInput>,
    k: int,
    column: Seq<u8>,
)
    requires
        0 <= k < folders.len(),
        folders[k].content is None,
        forall|j: int| 0 <= j < k ==> folders[j].content is Some,
    ensures
        merged(folders, column, ErrorMode::Panic) == Err::<Seq<u8>, Seq<u8>>(folders[k].name@),
{
    lemma_panic_structure(folders, 0, k, column, false);
}

/// Law: the merge is a function of the run's inputs alone, so two runs
/// over identical folder inputs, column label and error mode produce
/// identical output.
pub proof fn lemma_merge_deterministic(
    a: Seq<FolderInput>,
    b: Seq<FolderInput>,
    column_a: Seq<u8>,
    column_b: Seq<u8>,
    mode_a: ErrorMode,
    mode_b: ErrorMode,
)
    requires
        a == b,
        column_a == column_b,
        mode_a == mode_b,
    ensures
        merged(a, column_a, mode_a) == merged(b, column_b, mode_b),
{
}

} // verus!
