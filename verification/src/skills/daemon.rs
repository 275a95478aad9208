//! The skill daemon's decision logic: which skills a request triggers, by
//! rule (events and file globs) and by semantic match, and in what order.
use vstd::prelude::*;

use crate::skills::manifest::{skills_view, Skill, SkillView};
use crate::skills::priority::{sort_by_priority_desc, has_key, Prioritized, same_per_priority, sorted_desc, with_priority};
use crate::skills::types::{
    triggered_view, DaemonRequest, DaemonResponse, TriggeredSkill, TriggeredSkillView,
};
use crate::text::{contains_string, copy_opt_string, copy_string, copy_strings, str_eq};

verus! {

/// Whether `glob_match::glob_match` accepts `path` for `pattern`.
pub uninterp spec fn glob_accepts(pattern: Seq<char>, path: Seq<char>) -> bool;

/// Glob matching of a path (`glob_match::glob_match`). The crate's matcher is
/// deterministic; its result is named by `glob_accepts` and not spelled out.
#[verifier::external_body]
fn glob_match(pattern: &str, path: &str) -> (r: bool)
    ensures
        r == glob_accepts(pattern@, path@),
{
    glob_match::glob_match(pattern, path)
}

/// The `Debug` text of a list of strings (`format!("{:?}", files)`):
/// brackets around the quoted, escaped items separated by `, `.
pub uninterp spec fn debug_list_text(files: Seq<Seq<char>>) -> Seq<char>;

/// The `Debug` text of a list of strings (std's `format!` with `{:?}`).
/// Its text is named by `debug_list_text`; the escaping is not spelled out.
#[verifier::external_body]
fn debug_list(files: &Vec<String>) -> (r: String)
    ensures
        r@ == debug_list_text(files.deep_view()),
{
    format!("{:?}", files)
}

/// The reason attached to a rule match.
pub open spec fn rule_reason_text(event: Seq<char>, files: Seq<Seq<char>>) -> Seq<char> {
    "rule match: event="@ + event + ", files="@ + debug_list_text(files)
}

/// Builds the reason attached to a rule match.
fn rule_reason(event: &str, files: &Vec<String>) -> (r: String)
    ensures
        r@ == rule_reason_text(event@, files.deep_view()),
{
    let mut r = crate::text::concat_str("rule match: event=", event);
    crate::text::append_str(&mut r, ", files=");
    let d = debug_list(files);
    crate::text::append_str(&mut r, d.as_str());
    r
}

/// A semantic trigger hit: the skill it names and the reason to report.
#[derive(Debug)]
pub struct SemanticMatch {
    pub skill_name: String,
    pub reason: String,
}

/// The plain value of a [`SemanticMatch`].
pub struct SemanticMatchView {
    pub skill_name: Seq<char>,
    pub reason: Seq<char>,
}

impl View for SemanticMatch {
    type V = SemanticMatchView;

    open spec fn view(&self) -> SemanticMatchView {
        SemanticMatchView { skill_name: self.skill_name@, reason: self.reason@ }
    }
}

/// The plain values of a sequence of semantic hits.
pub open spec fn matches_view(s: Seq<SemanticMatch>) -> Seq<SemanticMatchView> {
    s.map_values(|m: SemanticMatch| m@)
}

/// The triggered-skill record of a skill with a reason.
pub open spec fn triggered_of(s: SkillView, reason: Seq<char>) -> TriggeredSkillView {
    TriggeredSkillView {
        skill: s.name,
        mode: s.mode,
        reason,
        priority: s.priority,
        pre_hooks: s.pre_hooks,
        post_hooks: s.post_hooks,
        prompt_file: s.prompt_file,
        inject_output: s.inject_output,
    }
}

/// Builds the triggered-skill record of a skill.
pub fn skill_to_triggered(skill: &Skill, reason: &str) -> (r: TriggeredSkill)
    ensures
        r@ == triggered_of(skill@, reason@),
{
    TriggeredSkill {
        skill: copy_string(&skill.name),
        mode: skill.mode,
        reason: reason.to_owned(),
        priority: skill.priority,
        pre_hooks: copy_strings(&skill.hooks.pre),
        post_hooks: copy_strings(&skill.hooks.post),
        prompt_file: copy_opt_string(&skill.context.prompt_file),
        inject_output: skill.hooks.inject_output,
    }
}

/// Whether some file matches some of the patterns.
pub open spec fn any_file_matches(patterns: Seq<Seq<char>>, files: Seq<Seq<char>>) -> bool {
    exists|i: int, j: int|
        0 <= i < files.len() && 0 <= j < patterns.len() && #[trigger] glob_accepts(
            patterns[j],
            files[i],
        )
}

/// A file matches wherever it stands in the list: when the file at any
/// position `i` is accepted by the pattern at any position `j`, a skill with
/// file patterns fires by rule exactly when it lists no events or lists this
/// event.
pub proof fn law_rule_fires_on_any_matching_file(
    s: SkillView,
    event: Seq<char>,
    files: Seq<Seq<char>>,
    i: int,
    j: int,
)
    requires
        0 <= i < files.len(),
        0 <= j < s.file_patterns.len(),
        glob_accepts(s.file_patterns[j], files[i]),
    ensures
        rules_fire(s, event, files) == (s.on_events.len() == 0 || s.on_events.contains(event)),
{
    assert(any_file_matches(s.file_patterns, files));
}

/// A skill with file patterns never fires by rule when no file is accepted
/// by any of its patterns; a skill with events and no patterns fires exactly
/// when the event is listed, whatever the files; a skill with neither never
/// fires by rule.
pub proof fn law_rule_needs_its_triggers(s: SkillView, event: Seq<char>, files: Seq<Seq<char>>)
    ensures
        (s.file_patterns.len() > 0 && forall|i: int, j: int|
            0 <= i < files.len() && 0 <= j < s.file_patterns.len() ==> !#[trigger] glob_accepts(
                s.file_patterns[j],
                files[i],
            )) ==> !rules_fire(s, event, files),
        (s.file_patterns.len() == 0 && s.on_events.len() > 0) ==> rules_fire(s, event, files)
            == s.on_events.contains(event),
        (s.file_patterns.len() == 0 && s.on_events.len() == 0) ==> !rules_fire(s, event, files),
{
}

/// Whether a skill's rule triggers fire for an event and a set of files:
/// events and patterns must each match when given, and a skill with neither
/// never fires by rule.
pub open spec fn rules_fire(s: SkillView, event: Seq<char>, files: Seq<Seq<char>>) -> bool {
    let has_events = s.on_events.len() > 0;
    let has_patterns = s.file_patterns.len() > 0;
    let event_match = s.on_events.contains(event);
    let file_match = any_file_matches(s.file_patterns, files);
    if has_events && has_patterns {
        event_match && file_match
    } else if has_events {
        event_match
    } else if has_patterns {
        file_match
    } else {
        false
    }
}

/// The rule tier over the first `k` skills.
pub open spec fn rule_tier(
    skills: Seq<SkillView>,
    event: Seq<char>,
    files: Seq<Seq<char>>,
    k: nat,
) -> Seq<TriggeredSkillView>
    decreases k,
{
    if k == 0 {
        seq![]
    } else {
        let prev = rule_tier(skills, event, files, (k - 1) as nat);
        if rules_fire(skills[k - 1], event, files) {
            prev.push(triggered_of(skills[k - 1], rule_reason_text(event, files)))
        } else {
            prev
        }
    }
}

/// The names of the skills that fire by rule among the first `k`.
pub open spec fn rule_names(
    skills: Seq<SkillView>,
    event: Seq<char>,
    files: Seq<Seq<char>>,
    k: nat,
) -> Seq<Seq<char>>
    decreases k,
{
    if k == 0 {
        seq![]
    } else {
        let prev = rule_names(skills, event, files, (k - 1) as nat);
        if rules_fire(skills[k - 1], event, files) {
            prev.push(skills[k - 1].name)
        } else {
            prev
        }
    }
}

/// Whether some skill has the given name.
#[verifier::opaque]
pub open spec fn has_skill_named(skills: Seq<SkillView>, name: Seq<char>) -> bool {
    exists|i: int| 0 <= i < skills.len() && skills[i].name == name
}

/// Position of the first skill with the given name.
#[verifier::opaque]
pub open spec fn first_skill_named(skills: Seq<SkillView>, name: Seq<char>) -> int {
    choose|i: int|
        0 <= i < skills.len() && skills[i].name == name && forall|j: int|
            0 <= j < i ==> skills[j].name != name
}

/// A skill that has the name is found first at `first_skill_named`.
pub proof fn lemma_first_skill_named(skills: Seq<SkillView>, name: Seq<char>, i: int)
    requires
        0 <= i < skills.len(),
        skills[i].name == name,
    ensures
        0 <= first_skill_named(skills, name) <= i,
        skills[first_skill_named(skills, name)].name == name,
        forall|j: int| 0 <= j < first_skill_named(skills, name) ==> skills[j].name != name,
    decreases i,
{
    reveal(first_skill_named);
    if exists|j: int| 0 <= j < i && skills[j].name == name {
        let j = choose|j: int| 0 <= j < i && skills[j].name == name;
        lemma_first_skill_named(skills, name, j);
    } else {
        let k = first_skill_named(skills, name);
        assert(0 <= i < skills.len() && skills[i].name == name && forall|j: int|
            0 <= j < i ==> skills[j].name != name);
        if k < i {
            assert(skills[k].name != name);
        }
        if k > i {
            assert(skills[i].name != name);
        }
    }
}

/// The semantic tier over the first `k` hits: each hit naming a known skill
/// not yet triggered adds that skill, and its name joins the triggered names.
pub open spec fn semantic_tier(
    skills: Seq<SkillView>,
    hits: Seq<SemanticMatchView>,
    names0: Seq<Seq<char>>,
    k: nat,
) -> (Seq<Seq<char>>, Seq<TriggeredSkillView>)
    decreases k,
{
    if k == 0 {
        (names0, seq![])
    } else {
        let prev = semantic_tier(skills, hits, names0, (k - 1) as nat);
        let m = hits[k - 1];
        if !prev.0.contains(m.skill_name) && has_skill_named(skills, m.skill_name) {
            let s = skills[first_skill_named(skills, m.skill_name)];
            (prev.0.push(s.name), prev.1.push(triggered_of(s, m.reason)))
        } else {
            prev
        }
    }
}

/// The skills an evaluation triggers, before ordering: rule matches in skill
/// order, then the new semantic matches in hit order.
pub open spec fn evaluation_candidates(
    skills: Seq<SkillView>,
    event: Seq<char>,
    files: Seq<Seq<char>>,
    hits: Option<Seq<SemanticMatchView>>,
) -> Seq<TriggeredSkillView> {
    let n = skills.len();
    rule_tier(skills, event, files, n) + match hits {
        Some(h) => semantic_tier(skills, h, rule_names(skills, event, files, n), h.len()).1,
        None => seq![],
    }
}

/// The skills a query returns: each hit that names a known skill, in hit order.
pub open spec fn query_results(skills: Seq<SkillView>, hits: Seq<SemanticMatchView>, k: nat) -> Seq<
    TriggeredSkillView,
>
    decreases k,
{
    if k == 0 {
        seq![]
    } else {
        let prev = query_results(skills, hits, (k - 1) as nat);
        let m = hits[k - 1];
        if has_skill_named(skills, m.skill_name) {
            prev.push(triggered_of(skills[first_skill_named(skills, m.skill_name)], m.reason))
        } else {
            prev
        }
    }
}

/// Whether a triggered record has priority `k`.
pub open spec fn view_has_priority(k: i32) -> spec_fn(TriggeredSkillView) -> bool {
    |t: TriggeredSkillView| t.priority == k
}

/// Highest priority first.
pub open spec fn views_sorted_desc(s: Seq<TriggeredSkillView>) -> bool {
    forall|i: int, j: int| 0 <= i < j < s.len() ==> s[i].priority >= s[j].priority
}

/// `a` and `b` hold the same records of each priority, in the same order.
pub open spec fn views_same_per_priority(
    a: Seq<TriggeredSkillView>,
    b: Seq<TriggeredSkillView>,
) -> bool {
    forall|k: i32| #[trigger] a.filter(view_has_priority(k)) == b.filter(view_has_priority(k))
}

proof fn lemma_view_filter(s: Seq<TriggeredSkill>, k: i32)
    ensures
        triggered_view(with_priority(s, k)) == triggered_view(s).filter(view_has_priority(k)),
    decreases s.len(),
{
    if s.len() > 0 {
        let t = s.drop_last();
        let e = s.last();
        lemma_view_filter(t, k);
        assert(s == t.push(e));
        t.lemma_filter_push(e, has_key::<TriggeredSkill>(k));
        assert(triggered_view(s) == triggered_view(t).push(e@));
        triggered_view(t).lemma_filter_push(e@, view_has_priority(k));
        if e.priority == k {
            assert(triggered_view(with_priority(t, k).push(e)) == triggered_view(
                with_priority(t, k),
            ).push(e@));
        }
    } else {
        reveal(Seq::filter);
        assert(triggered_view(s) =~= Seq::<TriggeredSkillView>::empty());
    }
}

proof fn lemma_sorted_views(r: Seq<TriggeredSkill>, v: Seq<TriggeredSkill>)
    requires
        sorted_desc(r),
        same_per_priority(r, v),
    ensures
        views_sorted_desc(triggered_view(r)),
        views_same_per_priority(triggered_view(r), triggered_view(v)),
{
    assert forall|k: i32|
        #[trigger] triggered_view(r).filter(view_has_priority(k)) == triggered_view(v).filter(
            view_has_priority(k),
        ) by {
        lemma_view_filter(r, k);
        lemma_view_filter(v, k);
        assert(with_priority(r, k) == with_priority(v, k));
    }
    assert forall|i: int, j: int| 0 <= i < j < triggered_view(r).len() implies triggered_view(
        r,
    )[i].priority >= triggered_view(r)[j].priority by {
        assert(r[i].key() >= r[j].key());
    }
}

/// The skill daemon's state: the skills it knows.
pub struct SkillDaemon {
    skills: Vec<Skill>,
}

impl SkillDaemon {
    /// The skills the daemon knows, in discovery order.
    pub closed spec fn known(&self) -> Seq<SkillView> {
        skills_view(self.skills@)
    }

    /// A daemon over a set of discovered skills.
    pub fn with_skills(skills: Vec<Skill>) -> (d: Self)
        ensures
            d.known() == skills_view(skills@),
    {
        SkillDaemon { skills }
    }

    /// The skills the daemon knows.
    pub fn skills(&self) -> (r: &Vec<Skill>)
        ensures
            skills_view(r@) == self.known(),
    {
        &self.skills
    }

    /// Position of the first known skill named `name`.
    fn find_skill(&self, name: &str) -> (r: Option<usize>)
        ensures
            r is None <==> !has_skill_named(self.known(), name@),
            r matches Some(i) ==> i < self.skills.len() && i == first_skill_named(
                self.known(),
                name@,
            ),
    {
        let ghost s = self.known();
        proof {
            reveal(first_skill_named);
            reveal(has_skill_named);
        }
        for i in 0..self.skills.len()
            invariant
                s == self.known(),
                s == skills_view(self.skills@),
                forall|j: int| 0 <= j < i ==> s[j].name != name@,
        {
            proof {
                reveal(first_skill_named);
                reveal(has_skill_named);
            }
            assert(s[i as int] == self.skills@[i as int]@);
            if str_eq(self.skills[i].name.as_str(), name) {
                proof {
                    let k = first_skill_named(s, name@);
                    assert(0 <= i < s.len() && s[i as int].name == name@ && forall|j: int|
                        0 <= j < i ==> s[j].name != name@);
                    assert(0 <= k < s.len() && s[k].name == name@ && forall|j: int|
                        0 <= j < k ==> s[j].name != name@);
                    if k < i {
                        assert(s[k].name != name@);
                    }
                    if i < k {
                        assert(s[i as int].name != name@);
                    }
                }
                return Some(i);
            }
        }
        assert(!has_skill_named(s, name@)) by {
            reveal(has_skill_named);
            if has_skill_named(s, name@) {
                let k = choose|k: int| 0 <= k < s.len() && s[k].name == name@;
                assert(s[k].name != name@);
            }
        }
        None
    }

    /// Whether a skill's rule triggers fire for an event and files.
    pub fn matches_rules(&self, skill: &Skill, event: &str, files: &Vec<String>) -> (r: bool)
        ensures
            r == rules_fire(skill@, event@, files.deep_view()),
    {
        let ghost sv = skill@;
        let ghost fv = files.deep_view();
        let ev = &skill.triggers.on_events;
        let pats = &skill.triggers.file_patterns;
        let event_match = contains_string(ev, event);
        let mut file_match = false;
        let mut i: usize = 0;
        while i < files.len() && !file_match
            invariant
                i <= files.len(),
                fv == files.deep_view(),
                sv == skill@,
                pats.deep_view() == sv.file_patterns,
                file_match ==> any_file_matches(sv.file_patterns, fv),
                !file_match ==> forall|a: int, b: int|
                    0 <= a < i && 0 <= b < sv.file_patterns.len() ==> !glob_accepts(
                        sv.file_patterns[b],
                        fv[a],
                    ),
            decreases files.len() - i,
        {
            let mut j: usize = 0;
            while j < pats.len() && !file_match
                invariant
                    i < files.len(),
                    j <= pats.len(),
                    fv == files.deep_view(),
                    sv == skill@,
                    pats.deep_view() == sv.file_patterns,
                    file_match ==> any_file_matches(sv.file_patterns, fv),
                    !file_match ==> forall|a: int, b: int|
                        (0 <= a < i && 0 <= b < sv.file_patterns.len()) || (a == i && 0 <= b < j)
                            ==> !glob_accepts(sv.file_patterns[b], fv[a]),
                decreases pats.len() - j,
            {
                assert(sv.file_patterns[j as int] == pats@[j as int]@);
                assert(fv[i as int] == files@[i as int]@);
                if glob_match(pats[j].as_str(), files[i].as_str()) {
                    file_match = true;
                    assert(glob_accepts(sv.file_patterns[j as int], fv[i as int]));
                }
                j += 1;
            }
            i += 1;
        }
        let has_events = ev.len() > 0;
        let has_patterns = pats.len() > 0;
        if !file_match {
            assert(!any_file_matches(sv.file_patterns, fv));
        }
        if has_events && has_patterns {
            event_match && file_match
        } else if has_events {
            event_match
        } else if has_patterns {
            file_match
        } else {
            false
        }
    }

    /// The rule tier: the skills whose rule triggers fire, in skill order, and
    /// their names.
    fn rule_pass(&self, event: &str, files: &Vec<String>) -> (r: (Vec<TriggeredSkill>, Vec<String>))
        ensures
            triggered_view(r.0@) == rule_tier(
                self.known(),
                event@,
                files.deep_view(),
                self.known().len(),
            ),
            r.1.deep_view() == rule_names(self.known(), event@, files.deep_view(), self.known().len()),
    {
        let ghost sk = self.known();
        let ghost fv = files.deep_view();
        let reason = rule_reason(event, files);
        let mut triggered: Vec<TriggeredSkill> = Vec::new();
        let mut names: Vec<String> = Vec::new();
        for i in 0..self.skills.len()
            invariant
                sk == self.known(),
                sk == skills_view(self.skills@),
                fv == files.deep_view(),
                reason@ == rule_reason_text(event@, fv),
                triggered_view(triggered@) == rule_tier(sk, event@, fv, i as nat),
                names.deep_view() == rule_names(sk, event@, fv, i as nat),
        {
            assert(sk[i as int] == self.skills@[i as int]@);
            let ghost tb = triggered_view(triggered@);
            let ghost nb = names.deep_view();
            if self.matches_rules(&self.skills[i], event, files) {
                names.push(copy_string(&self.skills[i].name));
                triggered.push(skill_to_triggered(&self.skills[i], reason.as_str()));
                assert(triggered_view(triggered@) =~= tb.push(
                    triggered_of(sk[i as int], rule_reason_text(event@, fv)),
                ));
                assert(names.deep_view() =~= nb.push(sk[i as int].name));
            }
        }
        (triggered, names)
    }

    /// The semantic tier: appends each hit's skill when it is known and not
    /// yet among `names`.
    fn semantic_pass(
        &self,
        hits: &Vec<SemanticMatch>,
        triggered: &mut Vec<TriggeredSkill>,
        names: &mut Vec<String>,
    )
        ensures
            triggered_view(final(triggered)@) == triggered_view(old(triggered)@) + semantic_tier(
                self.known(),
                matches_view(hits@),
                old(names).deep_view(),
                hits@.len(),
            ).1,
    {
        let ghost sk = self.known();
        let ghost hv = matches_view(hits@);
        let ghost t0 = triggered_view(triggered@);
        let ghost names0 = names.deep_view();
        assert(t0 + Seq::<TriggeredSkillView>::empty() == t0);
        for i in 0..hits.len()
            invariant
                sk == self.known(),
                sk == skills_view(self.skills@),
                hv == matches_view(hits@),
                triggered_view(triggered@) == t0 + semantic_tier(sk, hv, names0, i as nat).1,
                names.deep_view() == semantic_tier(sk, hv, names0, i as nat).0,
        {
            let ghost prev = semantic_tier(sk, hv, names0, i as nat);
            let ghost tb = triggered_view(triggered@);
            let ghost nb = names.deep_view();
            assert(hv[i as int] == hits@[i as int]@);
            let m = &hits[i];
            if !contains_string(names, m.skill_name.as_str()) {
                match self.find_skill(m.skill_name.as_str()) {
                    Some(k) => {
                        let ghost s = sk[k as int];
                        assert(s == self.skills@[k as int]@);
                        assert(semantic_tier(sk, hv, names0, (i + 1) as nat) == (
                            prev.0.push(s.name),
                            prev.1.push(triggered_of(s, hv[i as int].reason)),
                        ));
                        names.push(copy_string(&self.skills[k].name));
                        triggered.push(skill_to_triggered(&self.skills[k], m.reason.as_str()));
                        assert(names.deep_view() =~= nb.push(s.name));
                        assert(triggered_view(triggered@) =~= tb.push(
                            triggered_of(s, hv[i as int].reason),
                        ));
                        assert(t0 + prev.1.push(triggered_of(s, hv[i as int].reason)) =~= (t0
                            + prev.1).push(triggered_of(s, hv[i as int].reason)));
                    },
                    None => {
                        assert(semantic_tier(sk, hv, names0, (i + 1) as nat) == prev);
                    },
                }
            } else {
                assert(semantic_tier(sk, hv, names0, (i + 1) as nat) == prev);
            }
        }
    }

    /// Evaluates the triggers for an event on some files. `hits` are the
    /// semantic trigger matches for the prompt, or `None` when the prompt
    /// could not be embedded. Rule matches come first, then semantic matches
    /// of skills not yet triggered; the result is ordered by descending
    /// priority, ties kept in that order.
    pub fn evaluate(&self, event: &str, files: &Vec<String>, hits: Option<&Vec<SemanticMatch>>) -> (r:
        DaemonResponse)
        ensures
            views_sorted_desc(triggered_view(r.triggered@)),
            views_same_per_priority(
                triggered_view(r.triggered@),
                evaluation_candidates(
                    self.known(),
                    event@,
                    files.deep_view(),
                    match hits {
                        Some(h) => Some(matches_view(h@)),
                        None => None,
                    },
                ),
            ),
    {
        let (mut triggered, mut names) = self.rule_pass(event, files);
        match hits {
            Some(h) => {
                self.semantic_pass(h, &mut triggered, &mut names);
            },
            None => {
                assert(triggered_view(triggered@) + Seq::<TriggeredSkillView>::empty()
                    == triggered_view(triggered@));
            },
        }
        let ghost pre = triggered@;
        let sorted = sort_by_priority_desc(triggered);
        proof {
            lemma_sorted_views(sorted@, pre);
        }
        DaemonResponse { triggered: sorted }
    }

    /// The skills a query's semantic hits name, in hit order.
    pub fn query(&self, hits: &Vec<SemanticMatch>) -> (r: DaemonResponse)
        ensures
            triggered_view(r.triggered@) == query_results(
                self.known(),
                matches_view(hits@),
                hits@.len(),
            ),
    {
        let ghost sk = self.known();
        let ghost hv = matches_view(hits@);
        let mut triggered: Vec<TriggeredSkill> = Vec::new();
        for i in 0..hits.len()
            invariant
                sk == self.known(),
                hv == matches_view(hits@),
                triggered_view(triggered@) == query_results(sk, hv, i as nat),
        {
            let ghost tb = triggered_view(triggered@);
            assert(hv[i as int] == hits@[i as int]@);
            match self.find_skill(hits[i].skill_name.as_str()) {
                Some(k) => {
                    assert(sk[k as int] == self.skills@[k as int]@);
                    triggered.push(skill_to_triggered(&self.skills[k], hits[i].reason.as_str()));
                    assert(triggered_view(triggered@) =~= tb.push(
                        triggered_of(sk[k as int], hv[i as int].reason),
                    ));
                },
                None => {},
            }
        }
        DaemonResponse { triggered }
    }

    /// Handles a request from the agent. `hits` are the semantic trigger
    /// matches of the request's prompt (`None` when it could not be embedded).
    pub fn handle(&self, req: &DaemonRequest, hits: Option<&Vec<SemanticMatch>>) -> (r:
        DaemonResponse)
        ensures
            match req {
                DaemonRequest::Evaluate { prompt, event, files } => {
                    &&& views_sorted_desc(triggered_view(r.triggered@))
                    &&& views_same_per_priority(
                        triggered_view(r.triggered@),
                        evaluation_candidates(
                            self.known(),
                            event@,
                            files.deep_view(),
                            match hits {
                                Some(h) => Some(matches_view(h@)),
                                None => None,
                            },
                        ),
                    )
                },
                DaemonRequest::Query { prompt, top_k } => triggered_view(r.triggered@)
                    == match hits {
                    Some(h) => query_results(self.known(), matches_view(h@), h@.len()),
                    None => Seq::<TriggeredSkillView>::empty(),
                },
                _ => r.triggered@.len() == 0,
            },
    {
        match req {
            DaemonRequest::Evaluate { prompt, event, files } => self.evaluate(
                event.as_str(),
                files,
                hits,
            ),
            DaemonRequest::Query { prompt, top_k } => match hits {
                Some(h) => self.query(h),
                None => {
                    let r = DaemonResponse { triggered: Vec::new() };
                    assert(triggered_view(r.triggered@) =~= Seq::<TriggeredSkillView>::empty());
                    r
                },
            },
            _ => DaemonResponse { triggered: Vec::new() },
        }
    }
}

/// Semantic matching adds no skill twice and no skill that already fired by
/// rule: the names it adds are new and pairwise distinct.
pub proof fn law_semantic_tier_adds_only_new_names(
    skills: Seq<SkillView>,
    hits: Seq<SemanticMatchView>,
    names0: Seq<Seq<char>>,
    k: nat,
)
    requires
        k <= hits.len(),
    ensures
        semantic_tier(skills, hits, names0, k).0.take(names0.len() as int) == names0,
        semantic_tier(skills, hits, names0, k).0.len() == names0.len() + semantic_tier(
            skills,
            hits,
            names0,
            k,
        ).1.len(),
        forall|i: int, j: int|
            names0.len() <= i < semantic_tier(skills, hits, names0, k).0.len() && 0 <= j < i
                ==> semantic_tier(skills, hits, names0, k).0[i] != semantic_tier(
                skills,
                hits,
                names0,
                k,
            ).0[j],
    decreases k,
{
    if k > 0 {
        law_semantic_tier_adds_only_new_names(skills, hits, names0, (k - 1) as nat);
        let prev = semantic_tier(skills, hits, names0, (k - 1) as nat);
        let m = hits[k - 1];
        if !prev.0.contains(m.skill_name) && has_skill_named(skills, m.skill_name) {
            reveal(has_skill_named);
            let w = choose|w: int| 0 <= w < skills.len() && skills[w].name == m.skill_name;
            lemma_first_skill_named(skills, m.skill_name, w);
            let idx = first_skill_named(skills, m.skill_name);
            let now = prev.0.push(skills[idx].name);
            assert(now.take(names0.len() as int) == prev.0.take(names0.len() as int));
            assert forall|i: int, j: int| names0.len() <= i < now.len() && 0 <= j < i implies now[i]
                != now[j] by {
                if i == now.len() - 1 {
                    assert(now[j] == prev.0[j]);
                    assert(!prev.0.contains(m.skill_name));
                }
            }
        }
    } else {
        assert(names0.take(names0.len() as int) == names0);
    }
}

} // verus!
