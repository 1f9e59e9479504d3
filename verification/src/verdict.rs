//! The assistant's adjudication of one comment thread.
//!
//! A verdict never carries a confidence: what it rests on is stated as facts
//! outside the code (`depends_on`), each with how to check it and what the
//! verdict would become were it false. `depends_on` must be present even when
//! it is empty, so an omission cannot read as "self-contained".

use vstd::prelude::*;
use crate::text::copy_string;

verus! {

/// Whether the comment is right.
#[derive(Debug, Clone, Copy, PartialEq, Eq, Structural)]
pub enum Adjudication {
    Agree,
    Disagree,
    Unsure,
}

/// Whether two optional adjudications are the same.
pub fn same_flip(a: Option<Adjudication>, b: Option<Adjudication>) -> (r: bool)
    ensures
        r == (a == b),
{
    match (a, b) {
        (None, None) => true,
        (Some(x), Some(y)) => x == y,
        _ => false,
    }
}

impl Adjudication {
    /// The word shown for this adjudication.
    pub fn label(self) -> (r: &'static str)
        ensures
            r@ == match self {
                Adjudication::Agree => "agree"@,
                Adjudication::Disagree => "disagree"@,
                Adjudication::Unsure => "unsure"@,
            },
    {
        match self {
            Adjudication::Agree => "agree",
            Adjudication::Disagree => "disagree",
            Adjudication::Unsure => "unsure",
        }
    }
}

/// What kind of fact a verdict rests on.
#[derive(Debug, Clone, Copy, PartialEq, Eq, Structural)]
pub enum DependencyKind {
    CiConfig,
    ToolVersion,
    TeamConvention,
    Roadmap,
    Ticket,
    Other,
}

/// One fact outside the code that a verdict rests on.
#[derive(Debug, Clone, PartialEq, Eq)]
pub struct Dependency {
    pub fact: String,
    pub kind: DependencyKind,
    /// How a human checks the fact.
    pub verify: String,
    /// The adjudication the verdict would become were the fact false.
    pub flips_to: Option<Adjudication>,
}

/// A dependency as plain values.
pub struct DependencyView {
    pub fact: Seq<char>,
    pub kind: DependencyKind,
    pub verify: Seq<char>,
    pub flips_to: Option<Adjudication>,
}

impl View for Dependency {
    type V = DependencyView;

    open spec fn view(&self) -> DependencyView {
        DependencyView { fact: self.fact@, kind: self.kind, verify: self.verify@, flips_to: self.flips_to }
    }
}

pub open spec fn dependency_views(ds: Seq<Dependency>) -> Seq<DependencyView> {
    ds.map_values(|d: Dependency| d@)
}

impl Dependency {
    /// A copy of this dependency.
    pub fn duplicate(&self) -> (r: Dependency)
        ensures
            r@ == self@,
    {
        Dependency { fact: copy_string(&self.fact), kind: self.kind, verify: copy_string(&self.verify), flips_to: self.flips_to }
    }
}

/// One verdict, keyed by the id of the thread's opening comment.
#[derive(Debug, Clone, PartialEq, Eq)]
pub struct Verdict {
    pub comment_id: String,
    pub verdict: Adjudication,
    pub justification: String,
    /// `None` and an empty list both mean "self-contained".
    pub depends_on: Option<Vec<Dependency>>,
}

/// A verdict as plain values.
pub struct VerdictView {
    pub comment_id: Seq<char>,
    pub verdict: Adjudication,
    pub justification: Seq<char>,
    pub depends_on: Option<Seq<DependencyView>>,
}

impl View for Verdict {
    type V = VerdictView;

    open spec fn view(&self) -> VerdictView {
        VerdictView {
            comment_id: self.comment_id@,
            verdict: self.verdict,
            justification: self.justification@,
            depends_on: match self.depends_on {
                Some(ds) => Some(dependency_views(ds@)),
                None => None,
            },
        }
    }
}

pub open spec fn verdict_views(vs: Seq<Verdict>) -> Seq<VerdictView> {
    vs.map_values(|v: Verdict| v@)
}

/// The facts a verdict rests on; none when it is self-contained.
pub open spec fn spec_dependencies(v: VerdictView) -> Seq<DependencyView> {
    match v.depends_on {
        Some(ds) => ds,
        None => Seq::empty(),
    }
}

fn copy_dependencies(ds: &Vec<Dependency>) -> (r: Vec<Dependency>)
    ensures
        dependency_views(r@) == dependency_views(ds@),
{
    let mut r: Vec<Dependency> = Vec::new();
    let mut i: usize = 0;
    while i < ds.len()
        invariant
            i <= ds@.len(),
            r@.len() == i,
            forall|k: int| 0 <= k < i ==> r@[k]@ == ds@[k]@,
        decreases ds@.len() - i,
    {
        r.push(ds[i].duplicate());
        i = i + 1;
    }
    assert(dependency_views(r@) =~= dependency_views(ds@));
    r
}

impl Verdict {
    /// The facts this verdict rests on; empty when it is self-contained.
    pub fn dependencies(&self) -> (r: &[Dependency])
        ensures
            dependency_views(r@) == spec_dependencies(self@),
    {
        match &self.depends_on {
            Some(ds) => ds.as_slice(),
            None => &[],
        }
    }

    /// Whether the verdict rests on nothing outside the code.
    pub fn is_self_contained(&self) -> (r: bool)
        ensures
            r == (spec_dependencies(self@).len() == 0),
    {
        self.dependencies().len() == 0
    }

    /// A copy of this verdict.
    pub fn duplicate(&self) -> (r: Verdict)
        ensures
            r@ == self@,
    {
        let depends_on = match &self.depends_on {
            Some(ds) => Some(copy_dependencies(ds)),
            None => None,
        };
        Verdict {
            comment_id: copy_string(&self.comment_id),
            verdict: self.verdict,
            justification: copy_string(&self.justification),
            depends_on,
        }
    }
}

} // verus!
