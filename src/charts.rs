//! The kinds of metric a chart can show.

use vstd::prelude::*;
use crate::constants::{COLOR_TPS_LINE, COLOR_MEM_LINE, COLOR_PROMPT_LINE, COLOR_KV_CACHE_LINE};

verus! {

#[derive(Debug, Clone, Copy, PartialEq, Eq, Structural)]
pub enum MetricType {
    Tps,
    Memory,
    Prompt,
    KvCache,
}

impl MetricType {
    pub open spec fn color_spec(self) -> (u8, u8, u8) {
        match self {
            MetricType::Tps => COLOR_TPS_LINE,
            MetricType::Memory => COLOR_MEM_LINE,
            MetricType::Prompt => COLOR_PROMPT_LINE,
            MetricType::KvCache => COLOR_KV_CACHE_LINE,
        }
    }

    /// The line colour of the metric's chart.
    pub fn color(self) -> (r: (u8, u8, u8))
        ensures
            r == self.color_spec(),
    {
        match self {
            MetricType::Tps => COLOR_TPS_LINE,
            MetricType::Memory => COLOR_MEM_LINE,
            MetricType::Prompt => COLOR_PROMPT_LINE,
            MetricType::KvCache => COLOR_KV_CACHE_LINE,
        }
    }
}

} // verus!
