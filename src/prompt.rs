//! Prompt templates: named placeholders `<<<name>>>` replaced by literal text.

use vstd::prelude::*;
use crate::text::{chars_of, string_of, replaced, replace_all};

verus! {

/// The placeholder for a name: the name between `<<<` and `>>>`.
pub open spec fn marker(name: Seq<char>) -> Seq<char> {
    seq!['<', '<', '<'] + name + seq!['>', '>', '>']
}

/// The name of the placeholder for the generated answer.
pub open spec fn answer_name() -> Seq<char> {
    seq!['A', 'N', 'S', 'W', 'E', 'R']
}

fn marker_of(name: &str) -> (r: String)
    ensures
        r@ == marker(name@),
{
    let n = chars_of(name);
    let mut m: Vec<char> = Vec::new();
    m.push('<');
    m.push('<');
    m.push('<');
    let mut i: usize = 0;
    while i < n.len()
        invariant
            i <= n.len(),
            m@ == seq!['<', '<', '<'] + n@.take(i as int),
        decreases n.len() - i,
    {
        m.push(n[i]);
        i = i + 1;
        assert(m@ =~= seq!['<', '<', '<'] + n@.take(i as int));
    }
    assert(n@.take(n.len() as int) =~= n@);
    m.push('>');
    m.push('>');
    m.push('>');
    assert(m@ =~= marker(name@));
    string_of(&m)
}

/// The template with the placeholder of each hint, in order, replaced by
/// the hint's text.
pub open spec fn prompt_of(template: Seq<char>, hints: Seq<(Seq<char>, Seq<char>)>) -> Seq<char>
    decreases hints.len(),
{
    if hints.len() == 0 {
        template
    } else {
        replaced(prompt_of(template, hints.drop_last()), marker(hints.last().0), hints.last().1)
    }
}

/// The views of a sequence of string pairs.
pub open spec fn pair_views(v: Seq<(String, String)>) -> Seq<(Seq<char>, Seq<char>)> {
    v.map_values(|p: (String, String)| (p.0@, p.1@))
}

/// Fills the template: each `<<<name>>>` of a hint becomes the hint's text,
/// the hints taken in order.
pub fn build_prompt(template: &str, hints: &Vec<(String, String)>) -> (r: String)
    ensures
        r@ == prompt_of(template@, pair_views(hints@)),
{
    let mut prompt = template.to_owned();
    let mut i: usize = 0;
    while i < hints.len()
        invariant
            i <= hints.len(),
            prompt@ == prompt_of(template@, pair_views(hints@).take(i as int)),
        decreases hints.len() - i,
    {
        let m = marker_of(hints[i].0.as_str());
        prompt = replace_all(prompt.as_str(), m.as_str(), hints[i].1.as_str());
        assert(pair_views(hints@).take(i + 1).drop_last() =~= pair_views(hints@).take(i as int));
        i = i + 1;
    }
    assert(pair_views(hints@).take(hints.len() as int) =~= pair_views(hints@));
    prompt
}

/// The view of an optional string.
pub open spec fn opt_view(o: Option<String>) -> Option<Seq<char>> {
    match o {
        Some(t) => Some(t@),
        None => None,
    }
}

/// The answer embedded in the answer template, when there is one.
pub open spec fn wrapped_answer(answer_template: Option<Seq<char>>, answer: Seq<char>) -> Seq<char> {
    match answer_template {
        Some(t) => replaced(t, marker(answer_name()), answer),
        None => answer,
    }
}

/// Embeds the answer in the template: `<<<ANSWER>>>` becomes the answer.
pub fn wrap_answer(answer_template: &Option<String>, answer: &str) -> (r: String)
    ensures
        r@ == wrapped_answer(opt_view(*answer_template), answer@),
{
    match answer_template {
        Some(t) => {
            let mut name: Vec<char> = Vec::new();
            name.push('A');
            name.push('N');
            name.push('S');
            name.push('W');
            name.push('E');
            name.push('R');
            assert(name@ =~= answer_name());
            let m = marker_of(string_of(&name).as_str());
            replace_all(t.as_str(), m.as_str(), answer)
        },
        None => answer.to_owned(),
    }
}

} // verus!
