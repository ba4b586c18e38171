//! Instruction proposals: the prompts that ask a model for better
//! instructions, and the reading of its answer into candidates.
use vstd::prelude::*;
use crate::example::{Example, ExampleModel, EntryModel};
use crate::predict::state::example_models;
use crate::text::{
    trim, lines, join, views, decimal, is_ascii_digit, trim_start_by, trim_end_by, lemma_trim_start_by_at,
    lemma_trim_end_by_at, chars_of, lines_of, trim_chars, string_of, slice_copy, join_strings, decimal_string,
    concat3, is_char, digit, trim_matches, trim_end_char,
};
use crate::example::lemma_views_push;
use crate::value::value_text;

verus! {

/// Whether `x` is `c` (or, with no `c`, an ASCII digit).
fn leading_char(c: Option<char>, x: char) -> (r: bool)
    ensures
        r == (match c { Some(y) => is_char(y), None => digit() })(x),
{
    match c {
        Some(y) => x == y,
        None => '0' <= x && x <= '9',
    }
}

/// `v` without its leading characters that are `c` (or, with no `c`, ASCII
/// digits).
fn skip_leading(v: &[char], c: Option<char>) -> (r: Vec<char>)
    ensures
        r@ == trim_start_by(v@, match c { Some(x) => is_char(x), None => digit() }),
{
    let ghost p = match c { Some(x) => is_char(x), None => digit() };
    let mut i: usize = 0;
    while i < v.len() && leading_char(c, v[i])
        invariant
            i <= v@.len(),
            p == (match c { Some(x) => is_char(x), None => digit() }),
            forall|j: int| 0 <= j < i ==> p(#[trigger] v@[j]),
        decreases v@.len() - i,
    {
        i = i + 1;
    }
    proof {
        lemma_trim_start_by_at(v@, p, i as int);
    }
    let r = slice_copy(v, i, v.len());
    assert(r@ =~= v@.subrange(i as int, v@.len() as int));
    r
}

/// `s` without its leading and trailing `c`s.
fn trim_matches_chars(v: &[char], c: char) -> (r: Vec<char>)
    ensures
        r@ == trim_matches(v@, c),
{
    let a = skip_leading(v, Some(c));
    trim_end_char(a.as_slice(), c)
}

/// A line of a model's answer read as a candidate instruction: trimmed,
/// without a leading number, `.` and `)`, trimmed again; an empty rest is no
/// candidate, else it is taken without surrounding double quotes.
pub open spec fn candidate_of(line: Seq<char>) -> Option<Seq<char>> {
    let stripped = trim(trim_start_by(trim_start_by(trim_start_by(trim(line), digit()), is_char('.')), is_char(')')));
    if stripped.len() == 0 {
        None
    } else {
        Some(trim_matches(stripped, '"'))
    }
}

/// The candidates of the lines, in order.
pub open spec fn candidates_of(ls: Seq<Seq<char>>) -> Seq<Seq<char>>
    decreases ls.len(),
{
    if ls.len() == 0 {
        Seq::empty()
    } else {
        match candidate_of(ls.last()) {
            Some(c) => candidates_of(ls.drop_last()).push(c),
            None => candidates_of(ls.drop_last()),
        }
    }
}

/// The candidate of one line (see `candidate_of`).
fn line_candidate(line: &[char]) -> (r: Option<Vec<char>>)
    ensures
        match r {
            Some(c) => candidate_of(line@) == Some(c@),
            None => candidate_of(line@) is None,
        },
{
    let t = trim_chars(line);
    let a = skip_leading(t.as_slice(), None);
    let b = skip_leading(a.as_slice(), Some('.'));
    let c = skip_leading(b.as_slice(), Some(')'));
    let stripped = trim_chars(c.as_slice());
    if stripped.len() == 0 {
        None
    } else {
        Some(trim_matches_chars(stripped.as_slice(), '"'))
    }
}

/// The candidate instructions of a model's answer, one per line that holds
/// one (see `candidate_of`).
pub fn instruction_candidates(content: &str) -> (r: Vec<String>)
    ensures
        views(r@) == candidates_of(lines(content@)),
{
    let chars = chars_of(content);
    let ls = lines_of(chars.as_slice());
    let ghost lsm = ls@.map_values(|l: Vec<char>| l@);
    let mut r: Vec<String> = Vec::new();
    let mut i: usize = 0;
    while i < ls.len()
        invariant
            i <= ls@.len(),
            lsm == ls@.map_values(|l: Vec<char>| l@),
            lsm == lines(content@),
            views(r@) == candidates_of(lsm.take(i as int)),
        decreases ls@.len() - i,
    {
        assert(lsm.take(i + 1).drop_last() =~= lsm.take(i as int));
        assert(lsm.take(i + 1).last() == ls@[i as int]@);
        match line_candidate(ls[i].as_slice()) {
            Some(c) => {
                let s = string_of(c.as_slice());
                proof {
                    lemma_views_push(r@, s);
                }
                r.push(s);
            },
            None => {},
        }
        i = i + 1;
    }
    assert(lsm.take(i as int) =~= lsm);
    r
}

/// The instructions COPRO tries: the first `n` candidates, or the current
/// best alone where there are none.
pub open spec fn copro_candidates_of(content: Seq<char>, n: nat, current_best: Seq<char>) -> Seq<Seq<char>> {
    let cs = candidates_of(lines(content));
    let kept = if n < cs.len() { cs.take(n as int) } else { cs };
    if kept.len() == 0 {
        seq![current_best]
    } else {
        kept
    }
}

/// The first `n` strings, or all of them where there are fewer.
fn truncate_strings(v: Vec<String>, n: usize) -> (r: Vec<String>)
    ensures
        views(r@) == (if n < v@.len() { views(v@).take(n as int) } else { views(v@) }),
{
    let ghost start = v@;
    let mut v = v;
    v.truncate(n);
    assert(views(v@) =~= (if n < start.len() { views(start).take(n as int) } else { views(start) })) by {
        if n < start.len() {
            assert(v@ =~= start.take(n as int));
        }
    }
    v
}

/// The instructions COPRO tries after an answer (see `copro_candidates_of`).
pub fn copro_candidates(content: &str, n: usize, current_best: &str) -> (r: Vec<String>)
    ensures
        views(r@) == copro_candidates_of(content@, n as nat, current_best@),
{
    let all = instruction_candidates(content);
    let mut kept = truncate_strings(all, n);
    if kept.len() == 0 {
        let s = current_best.to_string();
        proof {
            lemma_views_push(kept@, s);
        }
        kept.push(s);
        assert(views(kept@) =~= seq![current_best@]);
    }
    kept
}

/// The instructions BetterTogether tries: the base instruction, then the
/// first `n` candidates.
pub open spec fn better_together_candidates_of(content: Seq<char>, n: nat, base: Seq<char>) -> Seq<Seq<char>> {
    let cs = candidates_of(lines(content));
    seq![base] + (if n < cs.len() { cs.take(n as int) } else { cs })
}

/// The instructions BetterTogether tries after an answer (see
/// `better_together_candidates_of`).
pub fn better_together_candidates(content: &str, n: usize, base: &str) -> (r: Vec<String>)
    ensures
        views(r@) == better_together_candidates_of(content@, n as nat, base@),
{
    let all = instruction_candidates(content);
    let kept = truncate_strings(all, n);
    let mut r: Vec<String> = Vec::new();
    r.push(base.to_string());
    let mut i: usize = 0;
    while i < kept.len()
        invariant
            i <= kept@.len(),
            views(r@) == seq![base@] + views(kept@).take(i as int),
        decreases kept@.len() - i,
    {
        let s = kept[i].clone();
        proof {
            lemma_views_push(r@, s);
        }
        r.push(s);
        assert(seq![base@] + views(kept@).take(i + 1) =~= (seq![base@] + views(kept@).take(i as int)).push(s@));
        i = i + 1;
    }
    assert(views(kept@).take(i as int) =~= views(kept@));
    r
}

/// A model's proposed instruction as MIPROv2 takes it: trimmed, then
/// without surrounding double quotes.
pub open spec fn cleaned_instruction(s: Seq<char>) -> Seq<char> {
    trim_matches(trim(s), '"')
}

/// A model's proposed instruction as MIPROv2 takes it.
pub fn clean_instruction(s: &str) -> (r: String)
    ensures
        r@ == cleaned_instruction(s@),
{
    let chars = chars_of(s);
    let t = trim_chars(chars.as_slice());
    let q = trim_matches_chars(t.as_slice(), '"');
    string_of(q.as_slice())
}

/// The prompt with which COPRO asks for `n` alternatives to the best
/// instruction so far.
pub open spec fn copro_prompt_text(current_best: Seq<char>, n: nat) -> Seq<char> {
    "You are optimizing a prompt instruction for a language model.\n\nCurrent best instruction:\n\""@ + current_best
        + "\"\n\nGenerate "@ + decimal(n)
        + " diverse alternative instructions that might perform better. Each instruction should be clear, specific, and self-contained.\n\nOutput each instruction on its own line, prefixed with a number and period.\nExample format:\n1. <instruction>\n2. <instruction>"@
}

/// The prompt of COPRO (see `copro_prompt_text`).
pub fn copro_prompt(current_best: &str, n: u64) -> (r: String)
    ensures
        r@ == copro_prompt_text(current_best@, n as nat),
{
    let mut r = concat3(
        "You are optimizing a prompt instruction for a language model.\n\nCurrent best instruction:\n\"",
        current_best,
        "\"\n\nGenerate ",
    );
    let d = decimal_string(n);
    r.append(d.as_str());
    r.append(" diverse alternative instructions that might perform better. Each instruction should be clear, specific, and self-contained.\n\nOutput each instruction on its own line, prefixed with a number and period.\nExample format:\n1. <instruction>\n2. <instruction>");
    r
}

/// The prompt with which BetterTogether asks for `n` alternatives to the
/// base instruction.
pub open spec fn better_together_prompt_text(base: Seq<char>, n: nat) -> Seq<char> {
    "You are optimizing a prompt instruction for a language model.\n\nCurrent instruction:\n\""@ + base
        + "\"\n\nGenerate "@ + decimal(n)
        + " diverse alternative instructions that might perform better. Each should be clear and self-contained.\n\nOutput each on its own line, numbered."@
}

/// The prompt of BetterTogether (see `better_together_prompt_text`).
pub fn better_together_prompt(base: &str, n: u64) -> (r: String)
    ensures
        r@ == better_together_prompt_text(base@, n as nat),
{
    let mut r = concat3(
        "You are optimizing a prompt instruction for a language model.\n\nCurrent instruction:\n\"",
        base,
        "\"\n\nGenerate ",
    );
    let d = decimal_string(n);
    r.append(d.as_str());
    r.append(" diverse alternative instructions that might perform better. Each should be clear and self-contained.\n\nOutput each on its own line, numbered.");
    r
}

/// `  name: text` for each field of a demo.
pub open spec fn demo_field_lines(es: Seq<EntryModel>) -> Seq<Seq<char>> {
    es.map_values(|e: EntryModel| "  "@ + e.0 + ": "@ + value_text(e.1))
}

/// The block that shows demo number `i` (from 0) to the model.
pub open spec fn demo_block(i: nat, es: Seq<EntryModel>) -> Seq<char> {
    "Example "@ + decimal(i + 1) + ":\n"@ + join(demo_field_lines(es), "\n"@)
}

/// The blocks of the demos.
pub open spec fn demo_blocks(demos: Seq<ExampleModel>) -> Seq<Seq<char>> {
    Seq::new(demos.len(), |i: int| demo_block(i as nat, demos[i].entries))
}

/// The examples MIPROv2 shows: the first three, one block each.
pub open spec fn mipro_demo_text(demos: Seq<ExampleModel>) -> Seq<char> {
    join(demo_blocks(if 3 < demos.len() { demos.take(3) } else { demos }), "\n\n"@)
}

/// The block of one demo.
fn demo_block_string(i: u64, demo: &Example) -> (r: String)
    requires
        i < u64::MAX,
    ensures
        r@ == demo_block(i as nat, demo@.entries),
{
    let fields = demo.iter();
    let mut ls: Vec<String> = Vec::new();
    let mut k: usize = 0;
    while k < fields.len()
        invariant
            k <= fields@.len(),
            crate::example::entry_models(fields@) == demo@.entries,
            views(ls@) == demo_field_lines(demo@.entries).take(k as int),
        decreases fields@.len() - k,
    {
        let text = fields[k].1.to_text();
        let mut s = concat3("  ", fields[k].0.as_str(), ": ");
        s.append(text.as_str());
        proof {
            lemma_views_push(ls@, s);
        }
        ls.push(s);
        assert(demo_field_lines(demo@.entries).take(k + 1) =~= demo_field_lines(demo@.entries).take(k as int).push(s@));
        k = k + 1;
    }
    assert(demo_field_lines(demo@.entries).take(k as int) =~= demo_field_lines(demo@.entries));
    let body = join_strings(&ls, "\n");
    let d = decimal_string(i + 1);
    let mut r = concat3("Example ", d.as_str(), ":\n");
    r.append(body.as_str());
    r
}

/// The examples MIPROv2 shows (see `mipro_demo_text`).
pub fn mipro_demo_text_of(demos: &[Example]) -> (r: String)
    ensures
        r@ == mipro_demo_text(example_models(demos@)),
{
    let n = if 3 < demos.len() { 3 } else { demos.len() };
    let ghost shown = if 3 < example_models(demos@).len() { example_models(demos@).take(3) } else { example_models(demos@) };
    let mut blocks: Vec<String> = Vec::new();
    let mut i: usize = 0;
    while i < n
        invariant
            i <= n <= demos@.len(),
            n <= 3,
            shown.len() == n,
            shown == (if 3 < example_models(demos@).len() { example_models(demos@).take(3) } else { example_models(demos@) }),
            views(blocks@) == demo_blocks(shown).take(i as int),
        decreases n - i,
    {
        let b = demo_block_string(i as u64, &demos[i]);
        proof {
            lemma_views_push(blocks@, b);
        }
        blocks.push(b);
        assert(demo_blocks(shown).take(i + 1) =~= demo_blocks(shown).take(i as int).push(b@));
        i = i + 1;
    }
    assert(demo_blocks(shown).take(i as int) =~= demo_blocks(shown));
    join_strings(&blocks, "\n\n")
}

/// The prompt with which MIPROv2 asks for an improved instruction.
pub open spec fn mipro_prompt_text(
    current_instruction: Seq<char>,
    input_names: Seq<Seq<char>>,
    output_names: Seq<Seq<char>>,
    demos: Seq<ExampleModel>,
) -> Seq<char> {
    "You are an instruction optimizer for a language model pipeline.\n\nThe current task instruction is:\n\""@
        + current_instruction + "\"\n\nInput fields: "@ + join(input_names, ", "@) + "\nOutput fields: "@
        + join(output_names, ", "@) + "\n\nHere are some examples from the dataset:\n"@ + mipro_demo_text(demos)
        + "\n\nPropose an improved instruction that will help the language model produce better outputs. The instruction should be clear, specific, and actionable. Output ONLY the new instruction text, nothing else."@
}

/// The prompt of MIPROv2 (see `mipro_prompt_text`).
pub fn mipro_prompt(
    current_instruction: &str,
    input_names: &Vec<String>,
    output_names: &Vec<String>,
    demos: &[Example],
) -> (r: String)
    ensures
        r@ == mipro_prompt_text(current_instruction@, views(input_names@), views(output_names@), example_models(demos@)),
{
    let ins = join_strings(input_names, ", ");
    let outs = join_strings(output_names, ", ");
    let demo_text = mipro_demo_text_of(demos);
    let mut r = concat3(
        "You are an instruction optimizer for a language model pipeline.\n\nThe current task instruction is:\n\"",
        current_instruction,
        "\"\n\nInput fields: ",
    );
    r.append(ins.as_str());
    r.append("\nOutput fields: ");
    r.append(outs.as_str());
    r.append("\n\nHere are some examples from the dataset:\n");
    r.append(demo_text.as_str());
    r.append("\n\nPropose an improved instruction that will help the language model produce better outputs. The instruction should be clear, specific, and actionable. Output ONLY the new instruction text, nothing else.");
    r
}

} // verus!
