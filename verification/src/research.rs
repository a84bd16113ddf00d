//! Long-horizon research: the plan over several platforms, and its findings.

use vstd::prelude::*;
use crate::text;

verus! {

/// The part of a research goal that is worked through on one platform.
#[derive(Debug, PartialEq, Eq)]
pub struct ResearchSubTask {
    pub id: String,
    pub platform: String,
    pub domain: String,
    /// Where to start on the platform.
    pub entry_hint: String,
    pub acceptance: Vec<String>,
    pub step_budget: u32,
    pub time_budget_secs: u64,
    pub query: String,
}

/// A research goal, fanned out over platforms.
#[derive(Debug, PartialEq, Eq)]
pub struct ResearchPlan {
    pub goal: String,
    pub platforms: Vec<ResearchSubTask>,
    pub synthesis_hint: String,
    pub overall_deadline_secs: Option<u64>,
    /// Whether the goal was recognised as research at all.
    pub is_research: bool,
    pub matched_pattern: String,
}

/// One thing that research turned up.
#[derive(Debug, PartialEq, Eq)]
pub struct ResearchFinding {
    pub id: String,
    pub platform: String,
    pub title: Option<String>,
    pub company: Option<String>,
    pub email: Option<String>,
    pub url: Option<String>,
    /// Free text, empty where there is nothing to add.
    pub note: String,
    pub added_at_secs: u64,
}

impl Clone for ResearchFinding {
    fn clone(&self) -> (r: Self)
        ensures
            r == *self,
    {
        ResearchFinding {
            id: self.id.clone(),
            platform: self.platform.clone(),
            title: text::opt_owned(&self.title),
            company: text::opt_owned(&self.company),
            email: text::opt_owned(&self.email),
            url: text::opt_owned(&self.url),
            note: self.note.clone(),
            added_at_secs: self.added_at_secs,
        }
    }
}

/// `base`, and where there is a `part`, `lead` and that part behind it.
pub open spec fn with_part(base: Seq<char>, lead: Seq<char>, part: Option<String>) -> Seq<char> {
    match part {
        Some(p) => base + lead + p@,
        None => base,
    }
}

impl ResearchFinding {
    /// `title at company [platform] — email — url — note`, without what is not
    /// known; an untitled finding shows its id.
    pub open spec fn spec_one_line(self) -> Seq<char> {
        let name = match self.title {
            Some(t) => t@,
            None => self.id@,
        };
        let head = with_part(name, " at "@, self.company) + " ["@ + self.platform@ + "]"@;
        let line = with_part(with_part(head, " — "@, self.email), " — "@, self.url);
        if self.note@.len() == 0 {
            line
        } else {
            line + " — "@ + self.note@
        }
    }

    /// The finding on one line.
    pub fn one_line(&self) -> (r: String)
        ensures
            r@ == self.spec_one_line(),
    {
        let mut out = match &self.title {
            Some(t) => t.clone(),
            None => self.id.clone(),
        };
        if let Some(company) = &self.company {
            out.append(" at ");
            out.append(company.as_str());
        }
        out.append(" [");
        out.append(self.platform.as_str());
        out.append("]");
        if let Some(email) = &self.email {
            out.append(" — ");
            out.append(email.as_str());
        }
        if let Some(url) = &self.url {
            out.append(" — ");
            out.append(url.as_str());
        }
        if !self.note.as_str().is_empty() {
            out.append(" — ");
            out.append(self.note.as_str());
        }
        out
    }
}

impl ResearchSubTask {
    /// The same subtask, field by field.
    pub open spec fn same(self, other: ResearchSubTask) -> bool {
        &&& self.id == other.id
        &&& self.platform == other.platform
        &&& self.domain == other.domain
        &&& self.entry_hint == other.entry_hint
        &&& self.acceptance@ == other.acceptance@
        &&& self.step_budget == other.step_budget
        &&& self.time_budget_secs == other.time_budget_secs
        &&& self.query == other.query
    }
}

impl Clone for ResearchSubTask {
    fn clone(&self) -> (r: Self)
        ensures
            r.same(*self),
    {
        ResearchSubTask {
            id: self.id.clone(),
            platform: self.platform.clone(),
            domain: self.domain.clone(),
            entry_hint: self.entry_hint.clone(),
            acceptance: text::copy_list(&self.acceptance),
            step_budget: self.step_budget,
            time_budget_secs: self.time_budget_secs,
            query: self.query.clone(),
        }
    }
}

impl ResearchPlan {
    /// The same plan, field by field.
    pub open spec fn same(self, other: ResearchPlan) -> bool {
        &&& self.goal == other.goal
        &&& self.platforms@.len() == other.platforms@.len()
        &&& forall|i: int|
            0 <= i < self.platforms@.len() ==> (#[trigger] self.platforms@[i]).same(
                other.platforms@[i],
            )
        &&& self.synthesis_hint == other.synthesis_hint
        &&& self.overall_deadline_secs == other.overall_deadline_secs
        &&& self.is_research == other.is_research
        &&& self.matched_pattern == other.matched_pattern
    }
}

impl Clone for ResearchPlan {
    fn clone(&self) -> (r: Self)
        ensures
            r.same(*self),
    {
        let mut platforms: Vec<ResearchSubTask> = Vec::new();
        let mut i: usize = 0;
        while i < self.platforms.len()
            invariant
                i <= self.platforms@.len(),
                platforms@.len() == i,
                forall|j: int|
                    0 <= j < i ==> (#[trigger] platforms@[j]).same(self.platforms@[j]),
            decreases self.platforms@.len() - i,
        {
            platforms.push(self.platforms[i].clone());
            i += 1;
        }
        ResearchPlan {
            goal: self.goal.clone(),
            platforms,
            synthesis_hint: self.synthesis_hint.clone(),
            overall_deadline_secs: self.overall_deadline_secs,
            is_research: self.is_research,
            matched_pattern: self.matched_pattern.clone(),
        }
    }
}

// ---------------------------------------------------------------------------
// Laws
// ---------------------------------------------------------------------------

proof fn lemma_with_part(base: Seq<char>, lead: Seq<char>, part: Option<String>)
    ensures
        base.is_prefix_of(with_part(base, lead, part)),
        part matches Some(p) ==> with_part(base, lead, part) == base + (lead + p@),
{
    match part {
        Some(p) => {
            assert(base + lead + p@ == base + (lead + p@));
            text::lemma_prefix_occurs(base, lead + p@);
        },
        None => {
            assert(base.subrange(0, base.len() as int) == base);
        },
    }
}

proof fn lemma_prefix_of_prefix(a: Seq<char>, b: Seq<char>, c: Seq<char>)
    requires
        a.is_prefix_of(b),
        b.is_prefix_of(c),
    ensures
        a.is_prefix_of(c),
{
    assert(c.subrange(0, a.len() as int) == b.subrange(0, a.len() as int)) by {
        assert forall|i: int| 0 <= i < a.len() implies c[i] == b[i] by {
            assert(c.subrange(0, b.len() as int)[i] == c[i]);
        }
    }
}

proof fn lemma_occurs_in_longer(a: Seq<char>, b: Seq<char>, p: Seq<char>, i: int)
    requires
        a.is_prefix_of(b),
        text::occurs_at(a, p, i),
    ensures
        text::occurs(b, p),
{
    assert(text::occurs_at(b, a, 0));
    text::lemma_occurs_within(b, a, 0, p, i);
}

/// The line of a finding begins with its title, or its id where it has none, and
/// shows everything that is known of it: company, platform, email, address and
/// note.
pub proof fn law_a_line_shows_all_that_is_known(f: ResearchFinding)
    ensures
        f.title matches Some(t) ==> t@.is_prefix_of(f.spec_one_line()),
        f.title is None ==> f.id@.is_prefix_of(f.spec_one_line()),
        f.company matches Some(c) ==> text::occurs(f.spec_one_line(), " at "@ + c@),
        text::occurs(f.spec_one_line(), " ["@ + f.platform@ + "]"@),
        f.email matches Some(e) ==> text::occurs(f.spec_one_line(), " — "@ + e@),
        f.url matches Some(u) ==> text::occurs(f.spec_one_line(), " — "@ + u@),
        f.note@.len() > 0 ==> (" — "@ + f.note@).is_suffix_of(f.spec_one_line()),
{
    let name = match f.title {
        Some(t) => t@,
        None => f.id@,
    };
    let named = with_part(name, " at "@, f.company);
    let tag = " ["@ + f.platform@ + "]"@;
    let head = named + " ["@ + f.platform@ + "]"@;
    assert(head == named + tag);
    let mailed = with_part(head, " — "@, f.email);
    let line = with_part(mailed, " — "@, f.url);
    let whole = f.spec_one_line();
    lemma_with_part(name, " at "@, f.company);
    text::lemma_prefix_occurs(named, tag);
    text::lemma_suffix_occurs(named, tag);
    lemma_with_part(head, " — "@, f.email);
    lemma_with_part(mailed, " — "@, f.url);
    if f.note@.len() > 0 {
        assert(whole == line + (" — "@ + f.note@));
        text::lemma_prefix_occurs(line, " — "@ + f.note@);
        text::lemma_suffix_occurs(line, " — "@ + f.note@);
    } else {
        assert(whole.subrange(0, whole.len() as int) == whole);
    }
    lemma_prefix_of_prefix(mailed, line, whole);
    lemma_prefix_of_prefix(head, mailed, whole);
    lemma_prefix_of_prefix(named, head, whole);
    lemma_prefix_of_prefix(name, named, whole);
    lemma_occurs_in_longer(head, whole, tag, named.len() as int);
    match f.company {
        Some(c) => {
            text::lemma_suffix_occurs(name, " at "@ + c@);
            lemma_occurs_in_longer(named, whole, " at "@ + c@, name.len() as int);
        },
        None => {},
    }
    match f.email {
        Some(e) => {
            text::lemma_suffix_occurs(head, " — "@ + e@);
            lemma_occurs_in_longer(mailed, whole, " — "@ + e@, head.len() as int);
        },
        None => {},
    }
    match f.url {
        Some(u) => {
            text::lemma_suffix_occurs(mailed, " — "@ + u@);
            lemma_occurs_in_longer(line, whole, " — "@ + u@, mailed.len() as int);
        },
        None => {},
    }
}

/// The line of a finding shows nothing else.
pub proof fn law_a_line_shows_nothing_else(f: ResearchFinding)
    requires
        f.company is None,
        f.email is None,
        f.url is None,
        f.note@.len() == 0,
    ensures
        f.title matches Some(t) ==> f.spec_one_line().len() == t@.len() + f.platform@.len() + 3,
        f.title is None ==> f.spec_one_line().len() == f.id@.len() + f.platform@.len() + 3,
{
    reveal_strlit(" [");
    reveal_strlit("]");
}

/// A copy of a research plan has all that the plan has: the goal, every platform with
/// its query and its budgets, and the deadline.
pub proof fn law_copies_of_plans_are_whole(a: ResearchPlan, b: ResearchPlan, i: int)
    requires
        a.same(b),
    ensures
        a.goal@ == b.goal@,
        a.platforms@.len() == b.platforms@.len(),
        a.overall_deadline_secs == b.overall_deadline_secs,
        a.is_research == b.is_research,
        a.synthesis_hint == b.synthesis_hint,
        a.matched_pattern == b.matched_pattern,
        0 <= i < a.platforms@.len() ==> {
            let p = a.platforms@[i];
            let q = b.platforms@[i];
            &&& p.id == q.id
            &&& p.platform == q.platform
            &&& p.domain == q.domain
            &&& p.entry_hint == q.entry_hint
            &&& p.query == q.query
            &&& p.acceptance@ == q.acceptance@
            &&& p.step_budget == q.step_budget
            &&& p.time_budget_secs == q.time_budget_secs
        },
{
}

} // verus!
