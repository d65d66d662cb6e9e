//! Laws of the renderer, proved once and for all layouts: the prefix law
//! of bounded raw-line blocks, the transpose law of parallel-lines
//! blocks, and the agreement of the unbounded block with its bounded
//! form.

use vstd::prelude::*;

use crate::generator::{io_element_text, scalar_text, zip_row_text, zip_rows_text};
use crate::model::{io_element_wf, IOElement, Scalar};
use crate::text::{
    join_with, lemma_join_with_free, lemma_split_join, sep_free,
    split_at,
};

verus! {

/// A bounded raw-lines block renders exactly its first `k` lines,
/// newline-joined; with bound zero it renders the empty text.
pub proof fn lemma_raw_lines_bounded_prefix(lines: Vec<String>, k: usize)
    requires
        k <= lines@.len(),
    ensures
        io_element_text(IOElement::RawLinesBounded(lines, k)) == join_with(
            lines@.take(k as int).map_values(|s: String| s@),
            seq!['\n'],
        ),
        io_element_wf(IOElement::RawLinesBounded(lines, k)),
        k == 0 ==> io_element_text(IOElement::RawLinesBounded(lines, k))
            == Seq::<char>::empty(),
{
    if k == 0 {
        assert(lines@.take(0).map_values(|s: String| s@) =~= Seq::<Seq<char>>::empty());
    }
}

/// A parallel-lines block with bound zero renders the empty text: no
/// rows, and no stray newline.
pub proof fn lemma_lines_bounded_zero(cols: Vec<Vec<Scalar>>)
    ensures
        io_element_text(IOElement::LinesBounded(cols, 0)) == Seq::<char>::empty(),
        io_element_wf(IOElement::LinesBounded(cols, 0)),
{
    assert(Seq::new(0, |i: int| zip_row_text(cols@, i)) =~= Seq::<Seq<char>>::empty());
}

/// The transpose law: the text of a bounded parallel-lines block splits
/// by newlines into exactly the `k` rows, and row `i` splits by single
/// spaces into `cols[0][i], ..., cols[c-1][i]` in column order — provided
/// each entry's text is free of spaces and newlines (an entry holding a
/// separator would merge with its neighbours). Empty entry texts are
/// fine; only with bound zero does the law not apply, since the empty
/// text splits as one empty line, not as none.
pub proof fn lemma_lines_bounded_transpose(cols: Vec<Vec<Scalar>>, k: usize)
    requires
        cols@.len() > 0,
        1 <= k,
        forall|c: int| 0 <= c < cols@.len() ==> k <= (#[trigger] cols@[c])@.len(),
        forall|c: int, i: int|
            0 <= c < cols@.len() && 0 <= i < k ==> sep_free(
                scalar_text(#[trigger] cols@[c]@[i]),
                ' ',
            ) && sep_free(scalar_text(cols@[c]@[i]), '\n'),
    ensures
        split_at(io_element_text(IOElement::LinesBounded(cols, k)), '\n') == Seq::new(
            k as nat,
            |i: int| zip_row_text(cols@, i),
        ),
        forall|i: int|
            0 <= i < k ==> split_at(#[trigger] zip_row_text(cols@, i), ' ') == Seq::new(
                cols@.len(),
                |c: int| scalar_text(cols@[c]@[i]),
            ),
{
    let rows = Seq::new(k as nat, |i: int| zip_row_text(cols@, i));
    assert forall|i: int| 0 <= i < k implies split_at(#[trigger] zip_row_text(cols@, i), ' ')
        == Seq::new(cols@.len(), |c: int| scalar_text(cols@[c]@[i])) && sep_free(
        zip_row_text(cols@, i),
        '\n',
    ) by {
        let entries = Seq::new(cols@.len(), |c: int| scalar_text(cols@[c]@[i]));
        assert forall|c: int| 0 <= c < entries.len() implies sep_free(
            #[trigger] entries[c],
            ' ',
        ) && sep_free(entries[c], '\n') by {
            assert(entries[c] == scalar_text(cols@[c]@[i]));
        }
        lemma_split_join(entries, ' ');
        lemma_join_with_free(entries, seq![' '], '\n');
    }
    assert forall|i: int| 0 <= i < rows.len() implies sep_free(#[trigger] rows[i], '\n') by {
        assert(rows[i] == zip_row_text(cols@, i));
    }
    lemma_split_join(rows, '\n');
    assert(io_element_text(IOElement::LinesBounded(cols, k)) == join_with(rows, seq!['\n']));
}

/// An unbounded parallel-lines block of equal-length columns renders
/// exactly as the bounded block whose bound is that shared length.
pub proof fn lemma_lines_unbounded_matches_bounded(cols: Vec<Vec<Scalar>>, k: usize)
    requires
        cols@.len() > 0,
        k == cols@[0]@.len(),
        forall|c: int|
            0 <= c < cols@.len() ==> (#[trigger] cols@[c])@.len() == cols@[0]@.len(),
    ensures
        io_element_text(IOElement::LinesUnbounded(cols)) == io_element_text(
            IOElement::LinesBounded(cols, k),
        ),
        io_element_wf(IOElement::LinesUnbounded(cols)),
        io_element_wf(IOElement::LinesBounded(cols, k)),
{
    assert(zip_rows_text(cols@, cols@[0]@.len()) == zip_rows_text(cols@, k as nat));
}

} // verus!
