//! Skill discovery: recommend the skills most relevant to a user message.
use vstd::prelude::*;
use vstd::utf8::encode_utf8;
use crate::common::xml::{spec_wrap, system_reminder};
use crate::ranking::{insert_desc, sort_desc, sorted_desc, lemma_insert_desc_at, lemma_sort_desc};
use crate::skill::SkillDef;
use crate::text::{
    cat, cat3, contains, join, join_strings, spec_to_lowercase, split_ws, str_contains,
    str_split_ws, to_lowercase, views,
};

verus! {

/// A recommended skill and why.
#[derive(Clone, Debug)]
pub struct SkillRecommendation {
    pub skill_name: String,
    pub reason: String,
}

/// Points for each trigger word of a skill found in the message.
pub open spec fn word_points(words: Seq<Seq<char>>, message_lower: Seq<char>) -> nat
    decreases words.len(),
{
    if words.len() == 0 {
        0
    } else {
        let w = spec_to_lowercase(words.last());
        word_points(words.drop_last(), message_lower)
            + if encode_utf8(w).len() >= 4 && contains(message_lower, w) { 2nat } else { 0nat }
    }
}

/// Relevance of a skill to a lower-cased message: 10 if its name occurs,
/// plus 2 for each word of its `when_to_use` of at least four bytes that occurs.
pub open spec fn relevance(skill: SkillDef, message_lower: Seq<char>) -> nat {
    (if contains(message_lower, spec_to_lowercase(skill.name@)) { 10nat } else { 0nat })
        + word_points(split_ws(skill.when_to_use@), message_lower)
}

/// A word that can earn points: at least four bytes once lower-cased.
pub open spec fn long_word(w: Seq<char>) -> bool {
    encode_utf8(spec_to_lowercase(w)).len() >= 4
}

/// How many of the words are long.
pub open spec fn long_word_count(words: Seq<Seq<char>>) -> nat
    decreases words.len(),
{
    if words.len() == 0 {
        0
    } else {
        long_word_count(words.drop_last()) + if long_word(words.last()) { 1nat } else { 0nat }
    }
}

/// Largest number of long trigger words whose points, with the 10 for the
/// name, still fit the `u32` score.
pub const MAX_LONG_WORDS: u64 = 0x7fff_fffa;

/// The skill's score fits a `u32` whatever the message: it has at most
/// `MAX_LONG_WORDS` long trigger words.
pub open spec fn score_fits(skill: SkillDef) -> bool {
    long_word_count(split_ws(skill.when_to_use@)) <= MAX_LONG_WORDS
}

proof fn lemma_word_points_bound(words: Seq<Seq<char>>, m: Seq<char>)
    ensures
        word_points(words, m) <= 2 * long_word_count(words),
    decreases words.len(),
{
    if words.len() > 0 {
        lemma_word_points_bound(words.drop_last(), m);
    }
}

proof fn lemma_long_word_count_prefix(words: Seq<Seq<char>>, i: int)
    requires
        0 <= i <= words.len(),
    ensures
        long_word_count(words.take(i)) <= long_word_count(words),
    decreases words.len(),
{
    if i < words.len() {
        assert(words.take(i) =~= words.drop_last().take(i));
        lemma_long_word_count_prefix(words.drop_last(), i);
    } else {
        assert(words.take(i) =~= words);
    }
}

/// Score a skill against a lower-cased user message.
pub fn score_skill_relevance(skill: &SkillDef, message_lower: &str) -> (r: u32)
    requires
        score_fits(*skill),
    ensures
        r == relevance(*skill, message_lower@),
{
    let mut score: u32 = 0;
    let name_lower = to_lowercase(skill.name.as_str());
    if str_contains(message_lower, name_lower.as_str()) {
        score = 10;
    }
    let words = str_split_ws(skill.when_to_use.as_str());
    let ghost ws = views(words@);
    let mut i: usize = 0;
    while i < words.len()
        invariant
            i <= words@.len(),
            ws == views(words@),
            ws == split_ws(skill.when_to_use@),
            long_word_count(ws) <= MAX_LONG_WORDS,
            score == (if contains(message_lower@, spec_to_lowercase(skill.name@)) { 10nat } else { 0nat })
                + word_points(ws.take(i as int), message_lower@),
        decreases words@.len() - i,
    {
        proof {
            assert(ws.take(i + 1).drop_last() =~= ws.take(i as int));
            lemma_word_points_bound(ws.take(i + 1), message_lower@);
            lemma_long_word_count_prefix(ws, i + 1);
        }
        let w = to_lowercase(words[i].as_str());
        if w.as_str().as_bytes().len() >= 4 && str_contains(message_lower, w.as_str()) {
            score = score + 2;
        }
        i = i + 1;
    }
    assert(ws.take(ws.len() as int) =~= ws);
    score
}

/// `(skill, score)` for the skills that score above zero, in order.
pub open spec fn scored_skills(skills: Seq<SkillDef>, message_lower: Seq<char>) -> Seq<(SkillDef, nat)>
    decreases skills.len(),
{
    if skills.len() == 0 {
        Seq::empty()
    } else {
        let rest = scored_skills(skills.drop_last(), message_lower);
        let s = relevance(skills.last(), message_lower);
        if s > 0 { rest.push((skills.last(), s)) } else { rest }
    }
}

/// The skills recommended for a message: those scoring above zero, best
/// first (ties in listing order), at most `max_results`.
pub open spec fn recommended(skills: Seq<SkillDef>, message: Seq<char>, max_results: nat) -> Seq<SkillDef> {
    let ranked = sort_desc(scored_skills(skills, spec_to_lowercase(message)));
    let kept = if ranked.len() <= max_results { ranked } else { ranked.take(max_results as int) };
    kept.map_values(|p: (SkillDef, nat)| p.0)
}

/// `(skill, score)` pairs for positions into `skills`.
pub open spec fn skills_at(skills: Seq<SkillDef>, r: Seq<(usize, u32)>) -> Seq<(SkillDef, nat)> {
    r.map_values(|p: (usize, u32)| (skills[p.0 as int], p.1 as nat))
}

/// Recommend the skills most relevant to the user message.
pub fn discover_skills(user_message: &str, available_skills: &[SkillDef], max_results: usize) -> (r: Vec<SkillRecommendation>)
    requires
        forall|i: int| 0 <= i < available_skills@.len() ==> score_fits(#[trigger] available_skills@[i]),
    ensures
        r@.len() == recommended(available_skills@, user_message@, max_results as nat).len(),
        forall|i: int| 0 <= i < r@.len() ==> {
            let s = #[trigger] recommended(available_skills@, user_message@, max_results as nat)[i];
            r@[i].skill_name@ == s.name@ && r@[i].reason@ == s.when_to_use@
        },
{
    let message_lower = to_lowercase(user_message);
    let ghost ml = message_lower@;
    let ghost ss = available_skills@;
    let mut ranked: Vec<(usize, u32)> = Vec::new();
    let mut i: usize = 0;
    while i < available_skills.len()
        invariant
            i <= ss.len(),
            ss == available_skills@,
            ml == message_lower@,
            forall|k: int| 0 <= k < ss.len() ==> score_fits(#[trigger] ss[k]),
            forall|k: int| 0 <= k < ranked@.len() ==> (#[trigger] ranked@[k]).0 < i,
            skills_at(ss, ranked@) == sort_desc(scored_skills(ss.take(i as int), ml)),
        decreases ss.len() - i,
    {
        let ghost before = skills_at(ss, ranked@);
        proof {
            assert(ss.take(i + 1).drop_last() =~= ss.take(i as int));
        }
        let s = score_skill_relevance(&available_skills[i], message_lower.as_str());
        if s > 0 {
            let ghost x = (ss[i as int], s as nat);
            let mut pos: usize = ranked.len();
            while pos > 0 && ranked[pos - 1].1 < s
                invariant
                    pos <= ranked@.len(),
                    forall|k: int| pos <= k < ranked@.len() ==> (#[trigger] ranked@[k]).1 < s,
                decreases pos,
            {
                pos = pos - 1;
            }
            proof {
                let sc = scored_skills(ss.take(i as int), ml);
                assert(scored_skills(ss.take(i + 1), ml) == sc.push(x));
                assert(sc.push(x).drop_last() =~= sc);
                assert(sort_desc(sc.push(x)) == insert_desc(sort_desc(sc), x));
                assert forall|k: int| pos <= k < before.len() implies #[trigger] before[k].1 < x.1 by {
                    assert(before[k].1 == ranked@[k].1 as nat);
                }
                if pos > 0 {
                    assert(before[pos - 1].1 == ranked@[pos - 1].1 as nat);
                }
                lemma_insert_desc_at(before, x, pos as int);
            }
            ranked.insert(pos, (i, s));
            proof {
                assert(skills_at(ss, ranked@) =~= before.insert(pos as int, x));
            }
        } else {
            assert(scored_skills(ss.take(i + 1), ml) == scored_skills(ss.take(i as int), ml));
        }
        i = i + 1;
    }
    assert(ss.take(ss.len() as int) =~= ss);
    let ghost full = sort_desc(scored_skills(ss, ml));
    let n = if ranked.len() <= max_results { ranked.len() } else { max_results };
    let ghost kept = if full.len() <= max_results { full } else { full.take(max_results as int) };
    let mut r: Vec<SkillRecommendation> = Vec::new();
    let mut k: usize = 0;
    while k < n
        invariant
            n <= ranked@.len(),
            n == kept.len(),
            ss == available_skills@,
            full == skills_at(ss, ranked@),
            kept == (if full.len() <= max_results { full } else { full.take(max_results as int) }),
            forall|j: int| 0 <= j < ranked@.len() ==> (#[trigger] ranked@[j]).0 < ss.len(),
            k <= n,
            r@.len() == k,
            forall|j: int| 0 <= j < k ==> r@[j].skill_name@ == kept[j].0.name@ && r@[j].reason@ == kept[j].0.when_to_use@,
        decreases n - k,
    {
        let skill = &available_skills[ranked[k].0];
        r.push(SkillRecommendation { skill_name: skill.name.clone(), reason: skill.when_to_use.clone() });
        k = k + 1;
    }
    r
}

/// Whether the skill's score fits a `u32` for every message.
pub fn fits_score(skill: &SkillDef) -> (r: bool)
    ensures
        r == score_fits(*skill),
{
    let words = str_split_ws(skill.when_to_use.as_str());
    let ghost ws = views(words@);
    let mut count: u64 = 0;
    let mut i: usize = 0;
    while i < words.len()
        invariant
            i <= words@.len(),
            ws == views(words@),
            ws == split_ws(skill.when_to_use@),
            count == long_word_count(ws.take(i as int)),
            count <= MAX_LONG_WORDS,
        decreases words@.len() - i,
    {
        proof {
            assert(ws.take(i + 1).drop_last() =~= ws.take(i as int));
        }
        let w = to_lowercase(words[i].as_str());
        if w.as_str().as_bytes().len() >= 4 {
            if count == MAX_LONG_WORDS {
                proof {
                    lemma_long_word_count_prefix(ws, i + 1);
                }
                return false;
            }
            count = count + 1;
        }
        i = i + 1;
    }
    assert(ws.take(ws.len() as int) =~= ws);
    true
}

/// Recommend skills as `discover_skills` does, after checking that every
/// skill's score fits a `u32`; `None` when one does not.
pub fn try_discover_skills(user_message: &str, available_skills: &[SkillDef], max_results: usize)
    -> (r: Option<Vec<SkillRecommendation>>)
    ensures
        r is None <==> exists|i: int| 0 <= i < available_skills@.len() && !score_fits(#[trigger] available_skills@[i]),
        r matches Some(v) ==> {
            &&& v@.len() == recommended(available_skills@, user_message@, max_results as nat).len()
            &&& forall|i: int| 0 <= i < v@.len() ==> {
                let s = #[trigger] recommended(available_skills@, user_message@, max_results as nat)[i];
                v@[i].skill_name@ == s.name@ && v@[i].reason@ == s.when_to_use@
            }
        },
{
    let mut i: usize = 0;
    while i < available_skills.len()
        invariant
            i <= available_skills@.len(),
            forall|k: int| 0 <= k < i ==> score_fits(#[trigger] available_skills@[k]),
        decreases available_skills@.len() - i,
    {
        if !fits_score(&available_skills[i]) {
            return None;
        }
        i = i + 1;
    }
    Some(discover_skills(user_message, available_skills, max_results))
}

/// A recommendation line.
pub open spec fn recommendation_line(r: SkillRecommendation) -> Seq<char> {
    "- "@ + r.skill_name@ + ": "@ + r.reason@
}

/// The reminder suggesting skills; `None` when there is nothing to suggest.
pub fn format_recommendations(recommendations: &[SkillRecommendation]) -> (r: Option<String>)
    ensures
        recommendations@.len() == 0 ==> r is None,
        recommendations@.len() > 0 ==> (r matches Some(s) && s@ == spec_wrap("system-reminder"@,
            "Based on your request, these skills may help:\n"@
                + join(recommendations@.map_values(|x: SkillRecommendation| recommendation_line(x)), "\n"@))),
{
    if recommendations.len() == 0 {
        return None;
    }
    let mut lines: Vec<String> = Vec::new();
    let mut i: usize = 0;
    while i < recommendations.len()
        invariant
            i <= recommendations@.len(),
            views(lines@) == recommendations@.take(i as int).map_values(|x: SkillRecommendation| recommendation_line(x)),
        decreases recommendations@.len() - i,
    {
        let rec = &recommendations[i];
        let line = cat3("- ", rec.skill_name.as_str(), cat(": ", rec.reason.as_str()).as_str());
        assert(line@ =~= recommendation_line(recommendations@[i as int]));
        let ghost before = lines@;
        lines.push(line);
        proof {
            assert(views(lines@) =~= views(before).push(line@));
            assert(recommendations@.take(i + 1) =~= recommendations@.take(i as int).push(recommendations@[i as int]));
        }
        i = i + 1;
        assert(views(lines@) =~= recommendations@.take(i as int).map_values(|x: SkillRecommendation| recommendation_line(x)));
    }
    assert(recommendations@.take(recommendations@.len() as int) =~= recommendations@);
    let joined = join_strings(lines.as_slice(), "\n");
    let content = cat("Based on your request, these skills may help:\n", joined.as_str());
    Some(system_reminder(content.as_str()))
}


proof fn lemma_scored_skills(skills: Seq<SkillDef>, m: Seq<char>)
    ensures
        forall|k: int| 0 <= k < scored_skills(skills, m).len() ==> {
            let p = #[trigger] scored_skills(skills, m)[k];
            &&& skills.contains(p.0)
            &&& p.1 == relevance(p.0, m)
            &&& p.1 > 0
        },
    decreases skills.len(),
{
    if skills.len() > 0 {
        let d = skills.drop_last();
        lemma_scored_skills(d, m);
        let sc = scored_skills(skills, m);
        assert forall|k: int| 0 <= k < sc.len() implies skills.contains((#[trigger] sc[k]).0) by {
            if k < scored_skills(d, m).len() {
                assert(sc[k] == scored_skills(d, m)[k]);
                let j = choose|j: int| 0 <= j < d.len() && d[j] == sc[k].0;
                assert(skills[j] == d[j]);
            } else {
                assert(skills[skills.len() - 1] == sc[k].0);
            }
        }
    }
}

/// Recommendations are at most `max_results` of the available skills, each
/// relevant to the message, the most relevant first.
pub proof fn lemma_recommendations_ranked(skills: Seq<SkillDef>, message: Seq<char>, max_results: nat)
    ensures
        recommended(skills, message, max_results).len() <= max_results,
        forall|i: int| 0 <= i < recommended(skills, message, max_results).len() ==> {
            let s = #[trigger] recommended(skills, message, max_results)[i];
            skills.contains(s) && relevance(s, spec_to_lowercase(message)) > 0
        },
        forall|i: int, j: int| 0 <= i < j < recommended(skills, message, max_results).len()
            ==> relevance(recommended(skills, message, max_results)[i], spec_to_lowercase(message))
                >= relevance(recommended(skills, message, max_results)[j], spec_to_lowercase(message)),
{
    let m = spec_to_lowercase(message);
    let sc = scored_skills(skills, m);
    let full = sort_desc(sc);
    lemma_sort_desc(sc);
    lemma_scored_skills(skills, m);
    let kept = if full.len() <= max_results { full } else { full.take(max_results as int) };
    let r = recommended(skills, message, max_results);
    assert(r == kept.map_values(|p: (SkillDef, nat)| p.0));
    assert forall|i: int| 0 <= i < r.len() implies full[i].1 == relevance(r[i], m) && {
        let s = #[trigger] r[i];
        skills.contains(s) && relevance(s, m) > 0
    } by {
        assert(r[i] == full[i].0);
        let k = choose|k: int| 0 <= k < sc.len() && sc[k] == full[i];
        assert(sc[k] == full[i]);
    }
    assert forall|i: int, j: int| 0 <= i < j < r.len() implies relevance(r[i], m) >= relevance(r[j], m) by {
        assert(full[i].1 == relevance(r[i], m));
        assert(full[j].1 == relevance(r[j], m));
    }
}

}
