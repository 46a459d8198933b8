//! The agent's system prompt: a fixed base, then workspace, design, project
//! instruction, skill and deck-state sections, all untrusted text escaped.
use crate::design::{texts, DesignPackage};
use crate::design_import::{push_xml_escaped, xml_escaped};
use crate::path::{is_absolute, join, join_path};
use crate::skills::{Skill, SkillSource};
use crate::text::{chars_of, decimal, extend_chars, push_decimal, string_of};
use vstd::prelude::*;

verus! {

broadcast use vstd::string::group_string_axioms;

/// The fixed part of every system prompt.
pub const BASE_PROMPT: &'static str = r#"You are slide-builder, a terminal-first agent that creates and edits PowerPoint decks with native deck tools.

Work on the active deck only unless the user explicitly asks to create or select another deck. Inspect before editing. Prefer semantic deck tools, preserve stable element IDs, validate meaningful changes, render every slide, and use visual feedback to fix defects. Never claim a mutation or render succeeded without a tool result. Keep deck content accurate, concise, legible, and appropriate for the user's audience.

Repository reads are available for research and asset generation. Deck writes are normal product work. Repository writes and processes may require approval. Network access from agent tools is unavailable. Do not use raw OOXML or optional external OfficeCLI unless native tools explicitly cannot perform the operation."#;

/// What the system prompt is assembled from. Relative paths are resolved
/// against `current_dir`; `instructions` are the `AGENTS.md` files from the
/// outermost ancestor of the repository directory inward, as (path, contents).
pub struct PromptContext<'a> {
    pub active_deck: &'a str,
    pub decks_dir: &'a str,
    pub repo_cwd: &'a str,
    pub current_dir: &'a str,
    pub design: Option<&'a DesignPackage>,
    pub instructions: &'a [(String, String)],
    pub skills: &'a [Skill],
    pub slide_index: usize,
    pub slide_count: usize,
    pub deck_generation: u64,
}

/// `p` made absolute against `cwd`.
pub open spec fn absolute_of(p: Seq<char>, cwd: Seq<char>) -> Seq<char> {
    if is_absolute(p) {
        p
    } else {
        join(cwd, p)
    }
}

/// The workspace section naming the active deck, decks and repository directories.
pub open spec fn workspace_section(deck: Seq<char>, decks: Seq<char>, repo: Seq<char>) -> Seq<char> {
    "\n\n<workspace>\n<active_deck>"@ + xml_escaped(deck) + "</active_deck>\n<decks_dir>"@ + xml_escaped(decks)
        + "</decks_dir>\n<repo_cwd>"@ + xml_escaped(repo) + "</repo_cwd>\n</workspace>"@
}

/// The supplementary files under `root`, joined with `, `.
pub open spec fn supplementary_list(root: Seq<char>, files: Seq<Seq<char>>) -> Seq<char>
    decreases files.len(),
{
    if files.len() == 0 {
        Seq::empty()
    } else if files.len() == 1 {
        join(root, files[0])
    } else {
        supplementary_list(root, files.drop_last()) + ", "@ + join(root, files.last())
    }
}

/// The design section: escaped guidelines and, when there are any, the
/// supplementary files to read on demand.
pub open spec fn design_section(design: Option<DesignPackage>) -> Seq<char> {
    match design {
        None => Seq::empty(),
        Some(p) => "\n\n<design_guidelines>"@ + xml_escaped(p.guidelines@) + "</design_guidelines>"@ + if p.supplementary_files@.len() == 0 {
            Seq::empty()
        } else {
            "\nDesign package supplementary files (read on demand): "@ + supplementary_list(p.path@, texts(p.supplementary_files@))
        },
    }
}

/// One project instruction file.
pub open spec fn instruction_entry(path: Seq<char>, contents: Seq<char>) -> Seq<char> {
    "\n\n<agents_instructions path=\""@ + xml_escaped(path) + "\">\n"@ + xml_escaped(contents) + "\n</agents_instructions>"@
}

/// All project instruction files, in order.
pub open spec fn instructions_section(ins: Seq<(String, String)>) -> Seq<char>
    decreases ins.len(),
{
    if ins.len() == 0 {
        Seq::empty()
    } else {
        instructions_section(ins.drop_last()) + instruction_entry(ins.last().0@, ins.last().1@)
    }
}

/// Where a skill comes from, as shown to the agent.
pub open spec fn source_text_of(s: SkillSource) -> Seq<char> {
    match s {
        SkillSource::Project(p) => "project: "@ + p@,
        SkillSource::User(p) => "user: "@ + p@,
        SkillSource::BuiltIn(p) => "built in: "@ + p@,
    }
}

/// One available skill.
pub open spec fn skill_entry(s: Skill) -> Seq<char> {
    "\n  <skill>\n    <name>"@ + xml_escaped(s.name@) + "</name>\n    <description>"@ + xml_escaped(s.description@)
        + "</description>\n    <source>"@ + xml_escaped(source_text_of(s.source)) + "</source>\n  </skill>"@
}

/// The skill entries, in order.
pub open spec fn skill_entries(skills: Seq<Skill>) -> Seq<char>
    decreases skills.len(),
{
    if skills.len() == 0 {
        Seq::empty()
    } else {
        skill_entries(skills.drop_last()) + skill_entry(skills.last())
    }
}

/// The skill entries of two lists one after the other are the entries of
/// the first list followed by those of the second.
pub proof fn lemma_skill_entries_append(a: Seq<Skill>, b: Seq<Skill>)
    ensures
        skill_entries(a + b) == skill_entries(a) + skill_entries(b),
    decreases b.len(),
{
    if b.len() == 0 {
        assert(a + b =~= a);
        assert(skill_entries(a) + Seq::<char>::empty() =~= skill_entries(a));
    } else {
        lemma_skill_entries_append(a, b.drop_last());
        assert((a + b).drop_last() =~= a + b.drop_last());
        assert((a + b).last() == b.last());
        assert(skill_entries(a) + skill_entries(b.drop_last()) + skill_entry(b.last()) =~= skill_entries(a) + (
        skill_entries(b.drop_last()) + skill_entry(b.last())));
    }
}

/// The skills section lists every given skill, each whole and in the given
/// order: skill `k`'s entry (its escaped name, description and source)
/// stands right after the entries of the skills before it.
pub proof fn lemma_skills_section_lists_each_skill(skills: Seq<Skill>, k: int)
    requires
        0 <= k < skills.len(),
    ensures
        skills_section(skills) == "\n\n<available_skills>"@ + skill_entries(skills.take(k)) + (
        "\n  <skill>\n    <name>"@ + xml_escaped(skills[k].name@) + "</name>\n    <description>"@ + xml_escaped(
            skills[k].description@,
        ) + "</description>\n    <source>"@ + xml_escaped(source_text_of(skills[k].source)) + "</source>\n  </skill>"@)
            + skill_entries(skills.skip(k + 1)) + "\n</available_skills>"@,
{
    assert(skills =~= skills.take(k) + seq![skills[k]] + skills.skip(k + 1));
    lemma_skill_entries_append(skills.take(k) + seq![skills[k]], skills.skip(k + 1));
    lemma_skill_entries_append(skills.take(k), seq![skills[k]]);
    let one = seq![skills[k]];
    assert(one.drop_last() =~= Seq::<Skill>::empty());
    assert(one.last() == skills[k]);
    assert(skill_entries(one.drop_last()) == Seq::<char>::empty());
    assert(skill_entries(one) == skill_entries(one.drop_last()) + skill_entry(skills[k]));
    assert(skill_entries(one) =~= skill_entry(skills[k]));
    assert("\n\n<available_skills>"@ + skill_entries(skills) + "\n</available_skills>"@ =~= "\n\n<available_skills>"@
        + skill_entries(skills.take(k)) + skill_entry(skills[k]) + skill_entries(skills.skip(k + 1)) + "\n</available_skills>"@);
}

/// The available-skills section, absent when there are no skills.
pub open spec fn skills_section(skills: Seq<Skill>) -> Seq<char> {
    if skills.len() == 0 {
        Seq::empty()
    } else {
        "\n\n<available_skills>"@ + skill_entries(skills) + "\n</available_skills>"@
    }
}

/// The active slide shown to the agent: 0 for an empty deck, else the
/// index capped at the slide count.
pub open spec fn active_slide(index: nat, count: nat) -> nat {
    if count == 0 {
        0
    } else if index < count {
        index
    } else {
        count
    }
}

/// The deck-state section.
pub open spec fn deck_state_section(index: nat, count: nat, generation: nat) -> Seq<char> {
    "\n\n<deck_state>active_slide="@ + decimal(active_slide(index, count)) + "; slide_count="@ + decimal(count)
        + "; generation="@ + decimal(generation) + "</deck_state>"@
}

/// The whole system prompt.
pub open spec fn prompt_of(c: PromptContext) -> Seq<char> {
    BASE_PROMPT@ + workspace_section(
        absolute_of(c.active_deck@, c.current_dir@),
        absolute_of(c.decks_dir@, c.current_dir@),
        absolute_of(c.repo_cwd@, c.current_dir@),
    ) + design_section(
        match c.design {
            Some(d) => Some(*d),
            None => None,
        },
    ) + instructions_section(c.instructions@) + skills_section(c.skills@) + deck_state_section(
        c.slide_index as nat,
        c.slide_count as nat,
        c.deck_generation as nat,
    )
}

/// `value` with `& < > " '` replaced by their XML entities.
pub fn xml_text(value: &str) -> (r: String)
    ensures
        r@ == xml_escaped(value@),
{
    crate::design_import::escape_xml_text(value)
}

/// Where a skill comes from, as shown to the agent.
pub fn source_text(source: &SkillSource) -> (r: String)
    ensures
        r@ == source_text_of(*source),
{
    let mut out: Vec<char> = Vec::new();
    match source {
        SkillSource::Project(p) => {
            extend_chars(&mut out, "project: ");
            extend_chars(&mut out, p.as_str());
        },
        SkillSource::User(p) => {
            extend_chars(&mut out, "user: ");
            extend_chars(&mut out, p.as_str());
        },
        SkillSource::BuiltIn(p) => {
            extend_chars(&mut out, "built in: ");
            extend_chars(&mut out, p.as_str());
        },
    }
    string_of(&out)
}

fn absolute(p: &str, cwd: &str) -> (r: String)
    ensures
        r@ == absolute_of(p@, cwd@),
{
    let v = chars_of(p);
    if v.len() > 0 && v[0] == '/' {
        p.to_owned()
    } else {
        join_path(cwd, p)
    }
}

fn push_design(out: &mut Vec<char>, design: &DesignPackage)
    ensures
        final(out)@ == old(out)@ + design_section(Some(*design)),
{
    extend_chars(out, "\n\n<design_guidelines>");
    push_xml_escaped(out, design.guidelines.as_str());
    extend_chars(out, "</design_guidelines>");
    let files = &design.supplementary_files;
    if files.len() == 0 {
        assert(texts(files@).len() == 0);
        return;
    }
    extend_chars(out, "\nDesign package supplementary files (read on demand): ");
    let ghost base = out@;
    let mut k: usize = 0;
    while k < files.len()
        invariant
            k <= files@.len(),
            files@.len() > 0,
            files == design.supplementary_files,
            out@ == base + supplementary_list(design.path@, texts(files@.take(k as int))),
        decreases files.len() - k,
    {
        if k > 0 {
            extend_chars(out, ", ");
        }
        let p = join_path(design.path.as_str(), files[k].as_str());
        extend_chars(out, p.as_str());
        proof {
            let t = texts(files@.take(k + 1));
            assert(texts(files@.take(k + 1)).drop_last() =~= texts(files@.take(k as int)));
            assert(t.last() == files@[k as int]@);
            if k == 0 {
                assert(t.len() == 1);
                assert(supplementary_list(design.path@, texts(files@.take(0))) =~= Seq::<char>::empty());
            }
        }
        assert(out@ =~= base + supplementary_list(design.path@, texts(files@.take(k + 1))));
        k += 1;
    }
    assert(files@.take(files@.len() as int) =~= files@);
}

fn push_instructions(out: &mut Vec<char>, ins: &[(String, String)])
    ensures
        final(out)@ == old(out)@ + instructions_section(ins@),
{
    let mut k: usize = 0;
    assert(ins@.take(0) =~= Seq::<(String, String)>::empty());
    assert(old(out)@ + instructions_section(Seq::<(String, String)>::empty()) =~= old(out)@);
    while k < ins.len()
        invariant
            k <= ins@.len(),
            out@ == old(out)@ + instructions_section(ins@.take(k as int)),
        decreases ins.len() - k,
    {
        let ghost before = out@;
        extend_chars(out, "\n\n<agents_instructions path=\"");
        push_xml_escaped(out, ins[k].0.as_str());
        extend_chars(out, "\">\n");
        push_xml_escaped(out, ins[k].1.as_str());
        extend_chars(out, "\n</agents_instructions>");
        proof {
            assert(ins@.take(k + 1).drop_last() =~= ins@.take(k as int));
            assert(ins@.take(k + 1).last() == ins@[k as int]);
            assert(out@ =~= before + instruction_entry(ins@[k as int].0@, ins@[k as int].1@));
        }
        k += 1;
    }
    assert(ins@.take(ins@.len() as int) =~= ins@);
}

fn push_skills(out: &mut Vec<char>, skills: &[Skill])
    ensures
        final(out)@ == old(out)@ + skills_section(skills@),
{
    if skills.len() == 0 {
        assert(old(out)@ + skills_section(skills@) =~= old(out)@);
        return;
    }
    extend_chars(out, "\n\n<available_skills>");
    let ghost base = out@;
    let mut k: usize = 0;
    assert(skills@.take(0) =~= Seq::<Skill>::empty());
    assert(base + skill_entries(Seq::<Skill>::empty()) =~= base);
    while k < skills.len()
        invariant
            k <= skills@.len(),
            out@ == base + skill_entries(skills@.take(k as int)),
        decreases skills.len() - k,
    {
        let ghost before = out@;
        let s = &skills[k];
        extend_chars(out, "\n  <skill>\n    <name>");
        push_xml_escaped(out, s.name.as_str());
        extend_chars(out, "</name>\n    <description>");
        push_xml_escaped(out, s.description.as_str());
        extend_chars(out, "</description>\n    <source>");
        let src = source_text(&s.source);
        push_xml_escaped(out, src.as_str());
        extend_chars(out, "</source>\n  </skill>");
        proof {
            assert(skills@.take(k + 1).drop_last() =~= skills@.take(k as int));
            assert(skills@.take(k + 1).last() == skills@[k as int]);
            assert(out@ =~= before + skill_entry(skills@[k as int]));
        }
        k += 1;
    }
    assert(skills@.take(skills@.len() as int) =~= skills@);
    extend_chars(out, "\n</available_skills>");
}

/// The system prompt: the base prompt, then the workspace paths (made
/// absolute), the design guidelines, project instructions, available skills
/// and the deck state, with every piece of untrusted text XML-escaped.
pub fn assemble(context: &PromptContext<'_>) -> (r: String)
    ensures
        r@ == prompt_of(*context),
{
    let mut out: Vec<char> = Vec::new();
    extend_chars(&mut out, BASE_PROMPT);
    let deck = absolute(context.active_deck, context.current_dir);
    let decks = absolute(context.decks_dir, context.current_dir);
    let repo = absolute(context.repo_cwd, context.current_dir);
    let ghost w0 = out@;
    extend_chars(&mut out, "\n\n<workspace>\n<active_deck>");
    push_xml_escaped(&mut out, deck.as_str());
    extend_chars(&mut out, "</active_deck>\n<decks_dir>");
    push_xml_escaped(&mut out, decks.as_str());
    extend_chars(&mut out, "</decks_dir>\n<repo_cwd>");
    push_xml_escaped(&mut out, repo.as_str());
    extend_chars(&mut out, "</repo_cwd>\n</workspace>");
    assert(out@ =~= w0 + workspace_section(deck@, decks@, repo@));
    let ghost w1 = out@;
    match context.design {
        Some(d) => push_design(&mut out, d),
        None => {},
    }
    let ghost w2 = out@;
    push_instructions(&mut out, context.instructions);
    push_skills(&mut out, context.skills);
    let ghost w3 = out@;
    let active: usize = if context.slide_count == 0 {
        0
    } else if context.slide_index < context.slide_count {
        context.slide_index
    } else {
        context.slide_count
    };
    extend_chars(&mut out, "\n\n<deck_state>active_slide=");
    push_decimal(&mut out, active as u64);
    extend_chars(&mut out, "; slide_count=");
    push_decimal(&mut out, context.slide_count as u64);
    extend_chars(&mut out, "; generation=");
    push_decimal(&mut out, context.deck_generation);
    extend_chars(&mut out, "</deck_state>");
    assert(out@ =~= w3 + deck_state_section(context.slide_index as nat, context.slide_count as nat, context.deck_generation as nat));
    string_of(&out)
}

/// The notice given to the agent when the active deck or design package
/// changes, naming both the old and the new ones (`None` when absent).
pub open spec fn transition_text(old_deck: Seq<char>, new_deck: Seq<char>, old_design: Seq<char>, new_design: Seq<char>) -> Seq<char> {
    "[slide-builder context transition] Active deck changed from '"@ + old_deck + "' to '"@ + new_deck
        + "'; design package changed from '"@ + old_design + "' to '"@ + new_design
        + "'. Disregard stale deck paths, element IDs, slide state, and design guidance from the previous context. Inspect the new active deck before editing."@
}

/// A design name, or `None`.
pub open spec fn design_or_none(d: Option<Seq<char>>) -> Seq<char> {
    match d {
        Some(n) => n,
        None => "None"@,
    }
}

/// See `transition_text`.
pub fn transition_message(old_deck: &str, new_deck: &str, old_design: Option<&str>, new_design: Option<&str>) -> (r: String)
    ensures
        r@ == transition_text(
            old_deck@,
            new_deck@,
            design_or_none(
                match old_design {
                    Some(d) => Some(d@),
                    None => None,
                },
            ),
            design_or_none(
                match new_design {
                    Some(d) => Some(d@),
                    None => None,
                },
            ),
        ),
{
    let od = match old_design {
        Some(d) => d,
        None => "None",
    };
    let nd = match new_design {
        Some(d) => d,
        None => "None",
    };
    let mut out: Vec<char> = Vec::new();
    extend_chars(&mut out, "[slide-builder context transition] Active deck changed from '");
    extend_chars(&mut out, old_deck);
    extend_chars(&mut out, "' to '");
    extend_chars(&mut out, new_deck);
    extend_chars(&mut out, "'; design package changed from '");
    extend_chars(&mut out, od);
    extend_chars(&mut out, "' to '");
    extend_chars(&mut out, nd);
    extend_chars(
        &mut out,
        "'. Disregard stale deck paths, element IDs, slide state, and design guidance from the previous context. Inspect the new active deck before editing.",
    );
    string_of(&out)
}

} // verus!
