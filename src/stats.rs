use vstd::prelude::*;

verus! {

/// How far the pipeline got.
#[derive(Debug, Clone, Copy, PartialEq, Eq, Structural)]
pub enum StatsStage {
    Mapped,
    Limit,
    Acl,
    ContentFilter,
}

/// Progress counter of one request: the stage reached and, per stage, how
/// many rules took part and how many matched.
#[derive(Debug, Clone, Copy, PartialEq, Eq, Structural)]
pub struct Stats {
    pub stage: StatsStage,
    pub flow_considered: usize,
    pub flow_matched: usize,
    pub limit_considered: usize,
    pub limit_matched: usize,
    pub acl_matched: usize,
    pub cf_skipped: bool,
    pub cf_matched: usize,
}

impl Stats {
    /// Counter of a request whose policy was just mapped.
    pub fn new() -> (r: Stats)
        ensures
            r.stage == StatsStage::Mapped,
            r.flow_considered == 0 && r.flow_matched == 0,
            r.limit_considered == 0 && r.limit_matched == 0,
            r.acl_matched == 0 && r.cf_matched == 0 && !r.cf_skipped,
    {
        Stats {
            stage: StatsStage::Mapped,
            flow_considered: 0,
            flow_matched: 0,
            limit_considered: 0,
            limit_matched: 0,
            acl_matched: 0,
            cf_skipped: false,
            cf_matched: 0,
        }
    }

    /// Records the flow checks; the stage stays at the mapping.
    pub fn flow(self, considered: usize, matched: usize) -> (r: Stats)
        requires
            self.stage == StatsStage::Mapped,
        ensures
            r == (Stats { flow_considered: considered, flow_matched: matched, ..self }),
    {
        Stats { flow_considered: considered, flow_matched: matched, ..self }
    }

    /// Records the limit checks and moves to the limit stage.
    pub fn limit(self, considered: usize, matched: usize) -> (r: Stats)
        requires
            self.stage == StatsStage::Mapped,
        ensures
            r == (Stats { stage: StatsStage::Limit, limit_considered: considered, limit_matched: matched, ..self }),
    {
        Stats { stage: StatsStage::Limit, limit_considered: considered, limit_matched: matched, ..self }
    }

    /// Records the access-control outcome and moves to the access-control stage.
    pub fn acl(self, matched: usize) -> (r: Stats)
        requires
            self.stage == StatsStage::Limit,
        ensures
            r == (Stats { stage: StatsStage::Acl, acl_matched: matched, ..self }),
    {
        Stats { stage: StatsStage::Acl, acl_matched: matched, ..self }
    }

    /// Records the content-filter matches and moves to the last stage.
    pub fn content_filter(self, matched: usize) -> (r: Stats)
        requires
            self.stage == StatsStage::Acl,
        ensures
            r == (Stats { stage: StatsStage::ContentFilter, cf_matched: matched, cf_skipped: false, ..self }),
    {
        Stats { stage: StatsStage::ContentFilter, cf_matched: matched, cf_skipped: false, ..self }
    }

    /// Records that the content filter could not run and moves to the last stage.
    pub fn no_content_filter(self) -> (r: Stats)
        requires
            self.stage == StatsStage::Acl,
        ensures
            r == (Stats { stage: StatsStage::ContentFilter, cf_skipped: true, ..self }),
    {
        Stats { stage: StatsStage::ContentFilter, cf_skipped: true, ..self }
    }
}

} // verus!
