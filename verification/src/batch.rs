use vstd::prelude::*;
use crate::classify::PathInfo;
use crate::convert::{convert_decoded_spec, DecodedImage, ExportError, ExportOutcome};
use crate::format::ExportFormat;
use crate::paths::{has_document_extension, is_document_path, with_extension_spec};

verus! {

/// The candidate documents in an enumeration, in order: the entries
/// that are regular files with the document extension.
pub open spec fn candidates_spec(infos: Seq<PathInfo>) -> Seq<Seq<u8>>
    decreases infos.len(),
{
    if infos.len() == 0 {
        Seq::empty()
    } else {
        let p0 = infos[0];
        (if p0.is_regular_file && is_document_path(p0.path@) {
            seq![p0.path@]
        } else {
            Seq::empty()
        }) + candidates_spec(infos.drop_first())
    }
}

/// Selects the documents of one-shot mode from an enumeration of the
/// target: the caller walks the file tree (or supplies the single
/// file) and marks each entry as regular file or not; no debounce
/// applies.
pub fn filter_candidates(infos: &Vec<PathInfo>) -> (r: Vec<Vec<u8>>)
    ensures
        r.deep_view() == candidates_spec(infos@),
{
    let mut out: Vec<Vec<u8>> = Vec::new();
    let mut i: usize = 0;
    proof {
        assert(infos@.skip(0) =~= infos@);
        assert(out.deep_view() + candidates_spec(infos@) =~~= candidates_spec(infos@));
    }
    while i < infos.len()
        invariant
            i <= infos@.len(),
            candidates_spec(infos@) == out.deep_view() + candidates_spec(infos@.skip(i as int)),
        decreases infos@.len() - i,
    {
        let ghost predv = out.deep_view();
        let info = &infos[i];
        if info.is_regular_file && has_document_extension(&info.path) {
            out.push(info.path.clone());
        }
        proof {
            let rest = infos@.skip(i as int);
            assert(rest[0] == infos@[i as int]);
            assert(rest.drop_first() =~= infos@.skip(i as int + 1));
            if out@.len() == predv.len() + 1 {
                assert(out.deep_view() =~~= predv.push(info.path@));
            }
            assert(predv + candidates_spec(rest) =~~= out.deep_view() + candidates_spec(
                infos@.skip(i as int + 1),
            ));
        }
        i = i + 1;
    }
    proof {
        assert(infos@.skip(infos@.len() as int) =~= Seq::<PathInfo>::empty());
        assert(out.deep_view() + Seq::<Seq<u8>>::empty() =~~= out.deep_view());
    }
    out
}

/// The aggregate result of one batch run.
#[derive(Clone, Copy, Debug, PartialEq, Eq, Structural)]
pub struct BatchSummary {
    /// How many documents were found and attempted; zero documents is
    /// reported here explicitly, not as an error.
    pub attempted: u64,
    pub succeeded: u64,
    pub failed: u64,
}

/// How many outcomes in the sequence report success.
pub open spec fn success_count(outcomes: Seq<ExportOutcome>) -> int
    decreases outcomes.len(),
{
    if outcomes.len() == 0 {
        0
    } else {
        success_count(outcomes.drop_last()) + if outcomes.last().result is Ok {
            1int
        } else {
            0int
        }
    }
}

proof fn lemma_success_count_bounds(outcomes: Seq<ExportOutcome>)
    ensures
        0 <= success_count(outcomes) <= outcomes.len(),
    decreases outcomes.len(),
{
    if outcomes.len() == 0 {
    } else {
        lemma_success_count_bounds(outcomes.drop_last());
    }
}

/// Aggregates the outcomes of a batch run once every worker has
/// finished.
pub fn summarize(outcomes: &Vec<ExportOutcome>) -> (r: BatchSummary)
    ensures
        r.attempted == outcomes@.len(),
        r.succeeded == success_count(outcomes@),
        r.failed == outcomes@.len() - success_count(outcomes@),
{
    let mut succ: u64 = 0;
    let mut i: usize = 0;
    proof {
        assert(outcomes@.subrange(0, 0) =~= Seq::<ExportOutcome>::empty());
    }
    while i < outcomes.len()
        invariant
            i <= outcomes@.len(),
            succ == success_count(outcomes@.subrange(0, i as int)),
            0 <= succ <= i,
        decreases outcomes@.len() - i,
    {
        if outcomes[i].result.is_ok() {
            succ = succ + 1;
        }
        proof {
            let cur = outcomes@.subrange(0, i as int + 1);
            assert(cur.drop_last() =~= outcomes@.subrange(0, i as int));
            assert(cur.last() == outcomes@[i as int]);
        }
        i = i + 1;
    }
    proof {
        assert(outcomes@.subrange(0, outcomes@.len() as int) =~= outcomes@);
        lemma_success_count_bounds(outcomes@);
    }
    let attempted: u64 = outcomes.len() as u64;
    BatchSummary { attempted, succeeded: succ, failed: attempted - succ }
}

/// One batch run over a directory snapshot: for each candidate
/// document, in enumeration order, the output path written next to it
/// and the result of converting what it decoded to.
pub open spec fn batch_run_spec(
    docs: Seq<(Seq<u8>, Result<DecodedImage, ExportError>)>,
    format: ExportFormat,
) -> Seq<(Seq<u8>, Result<Seq<u8>, ExportError>)> {
    docs.map(
        |i: int, d: (Seq<u8>, Result<DecodedImage, ExportError>)|
            (with_extension_spec(d.0, format.extension_bytes_spec()), convert_decoded_spec(
                d.1,
                format.is_jpeg(),
            )),
    )
}

/// Idempotence of batch mode: everything a run does is a function of
/// the directory snapshot — the enumerated entries and what each
/// document decoded to.  Candidate selection is pure, output paths
/// depend on the document path and the format alone, and conversion
/// depends on the decode result and the format alone (the encoder is a
/// function of its inputs; the decoder runs on the same bytes in both
/// runs and computes from them alone, though that stands outside this
/// model).  So two runs over an unchanged directory whose documents
/// decode to the same values select the same candidates, write the
/// same output paths, and produce the same result — in particular the
/// same success count — for every document.
pub proof fn lemma_batch_idempotent(
    infos: Seq<PathInfo>,
    docs: Seq<(Seq<u8>, Result<DecodedImage, ExportError>)>,
    format: ExportFormat,
    first_candidates: Seq<Seq<u8>>,
    second_candidates: Seq<Seq<u8>>,
    first_run: Seq<(Seq<u8>, Result<Seq<u8>, ExportError>)>,
    second_run: Seq<(Seq<u8>, Result<Seq<u8>, ExportError>)>,
)
    requires
        first_candidates == candidates_spec(infos),
        second_candidates == candidates_spec(infos),
        first_run == batch_run_spec(docs, format),
        second_run == batch_run_spec(docs, format),
    ensures
        first_candidates == second_candidates,
        first_run == second_run,
{
}

} // verus!
