//! Folding a batch of requests in order, and handing the result on.
use vstd::prelude::*;
use crate::context::{BuildContext, ContextView};
use crate::merge::{context_views, merge, merge_step};

verus! {

/// One request: the context that resolution produced for it, and the
/// directory its root artifacts go to, if it chose one.
pub struct BuildRequest {
    pub context: BuildContext,
    pub export_dir: Option<String>,
}

/// The value of a request.
pub struct RequestView {
    pub context: ContextView,
    pub export_dir: Option<String>,
}

impl View for BuildRequest {
    type V = RequestView;

    open spec fn view(&self) -> RequestView {
        RequestView { context: self.context@, export_dir: self.export_dir }
    }
}

pub open spec fn request_views(v: Seq<BuildRequest>) -> Seq<RequestView> {
    v.map_values(|r: BuildRequest| r@)
}

/// The accumulator after folding `reqs` in order; none for no request.
pub open spec fn fold_requests(reqs: Seq<RequestView>) -> Option<ContextView>
    decreases reqs.len(),
{
    if reqs.len() == 0 {
        None
    } else {
        Some(
            merge_step(fold_requests(reqs.drop_last()), reqs.last().context, reqs.last().export_dir),
        )
    }
}

/// The merged context as handed on: uplifting is switched off.
pub open spec fn finalized(c: ContextView) -> ContextView {
    ContextView { uplift: false, ..c }
}

/// The final context of a non-empty batch.
pub open spec fn merged_batch(reqs: Seq<RequestView>) -> ContextView {
    finalized(fold_requests(reqs).unwrap())
}

/// Merges a batch of requests in order into one context with uplifting
/// switched off; none for an empty batch.
pub fn merge_requests(requests: Vec<BuildRequest>) -> (r: Option<BuildContext>)
    requires
        forall|i: int| 0 <= i < requests@.len() ==> (#[trigger] requests@[i]).context.wf(),
    ensures
        r is None <==> requests@.len() == 0,
        r matches Some(c) ==> c.wf() && c@ == merged_batch(request_views(requests@)),
{
    let ghost all = request_views(requests@);
    let mut merger = BatchMerger::new();
    let mut rest = requests;
    let ghost mut done: int = 0;
    while rest.len() > 0
        invariant
            merger.wf(),
            0 <= done <= all.len(),
            merger.folded() == all.take(done),
            request_views(rest@) == all.skip(done),
            forall|i: int| 0 <= i < rest@.len() ==> (#[trigger] rest@[i]).context.wf(),
        decreases rest@.len(),
    {
        let ghost before = rest@;
        let req = rest.remove(0);
        proof {
            assert(request_views(before).len() == all.skip(done).len());
            assert(request_views(before)[0] == all.skip(done)[0]);
            assert(req@ == all[done]);
            assert(all.take(done).push(req@) =~= all.take(done + 1));
            assert(rest@ =~= before.subrange(1, before.len() as int));
            assert forall|i: int| 0 <= i < rest@.len() implies request_views(rest@)[i] == all.skip(
                done + 1,
            )[i] by {
                assert(request_views(before)[i + 1] == all.skip(done)[i + 1]);
            }
            assert(request_views(rest@) =~= all.skip(done + 1));
            assert forall|i: int| 0 <= i < rest@.len() implies (#[trigger] rest@[i]).context.wf() by {
                assert(rest@[i] == before[i + 1]);
            }
            done = done + 1;
        }
        merger.fold(req);
    }
    proof {
        assert(all.take(done) =~= all);
    }
    match merger.finish(false) {
        Some(Handoff::Execute(c)) => Some(c),
        _ => None,
    }
}

/// What becomes of the merged context: reported as a graph, or executed.
pub enum Handoff {
    Report(BuildContext),
    Execute(BuildContext),
}

/// The accumulator of a batch that is being folded.
pub struct BatchMerger {
    acc: Option<BuildContext>,
    folded: Ghost<Seq<RequestView>>,
}

impl BatchMerger {
    /// The requests folded so far, in order.
    pub closed spec fn folded(&self) -> Seq<RequestView> {
        self.folded@
    }

    /// The accumulated context so far.
    pub closed spec fn accumulated(&self) -> Option<ContextView> {
        context_views(self.acc)
    }

    pub closed spec fn wf(&self) -> bool {
        &&& self.acc matches Some(a) ==> a.wf()
        &&& context_views(self.acc) == fold_requests(self.folded@)
    }

    pub fn new() -> (r: Self)
        ensures
            r.wf(),
            r.folded() == Seq::<RequestView>::empty(),
    {
        BatchMerger { acc: None, folded: Ghost(Seq::empty()) }
    }

    /// Folds the next request into the accumulator.
    pub fn fold(&mut self, request: BuildRequest)
        requires
            old(self).wf(),
            request.context.wf(),
        ensures
            final(self).wf(),
            final(self).folded() == old(self).folded().push(request@),
            final(self).accumulated() == fold_requests(final(self).folded()),
    {
        let ghost reqs = self.folded@.push(request@);
        let acc = self.acc.take();
        let merged = merge(acc, request.context, request.export_dir);
        self.acc = Some(merged);
        self.folded = Ghost(reqs);
        proof {
            assert(reqs.drop_last() =~= old(self).folded@);
        }
    }

    /// Ends the batch: the merged context, with uplifting switched off, is
    /// to be reported when `report_only`, else executed; none if no request
    /// was folded.
    pub fn finish(self, report_only: bool) -> (r: Option<Handoff>)
        requires
            self.wf(),
        ensures
            r is None <==> self.folded().len() == 0,
            r matches Some(Handoff::Report(c)) ==> report_only && c.wf() && c@ == merged_batch(
                self.folded(),
            ),
            r matches Some(Handoff::Execute(c)) ==> !report_only && c.wf() && c@ == merged_batch(
                self.folded(),
            ),
    {
        match self.acc {
            Some(c) => {
                let mut c = c;
                c.uplift = false;
                if report_only {
                    Some(Handoff::Report(c))
                } else {
                    Some(Handoff::Execute(c))
                }
            },
            None => None,
        }
    }
}

} // verus!
