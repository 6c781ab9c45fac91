//! The system prompt of the agent.

use vstd::prelude::*;
use crate::llm::types::{UnifiedTool, UnifiedToolView, tool_views};
use crate::skills::{Skill, catalog, format_for_prompt, skill_views};
use crate::text::{owned, push_str};

verus! {

/// The tool list: one `- name: description` line per tool.
pub open spec fn tool_lines(ts: Seq<UnifiedToolView>) -> Seq<char>
    decreases ts.len(),
{
    if ts.len() == 0 {
        Seq::empty()
    } else {
        tool_lines(ts.drop_last()) + "\n- "@ + ts.last().name + ": "@ + ts.last().description
    }
}

/// The text that loads a skill the user referenced with `@name`.
pub open spec fn injected_text(name: Seq<char>, body: Seq<char>) -> Seq<char> {
    "\nThe user explicitly referenced the @"@ + name
        + " skill. Its full content is loaded below. Follow its instructions.\n\n"@ + body
}

pub open spec fn injected_lines(v: Seq<(Seq<char>, Seq<char>)>) -> Seq<char>
    decreases v.len(),
{
    if v.len() == 0 {
        Seq::empty()
    } else {
        injected_lines(v.drop_last()) + "\n"@ + injected_text(v.last().0, v.last().1)
    }
}

pub open spec fn pair_views(v: Seq<(String, String)>) -> Seq<(Seq<char>, Seq<char>)> {
    v.map_values(|p: (String, String)| (p.0@, p.1@))
}

pub open spec fn edit_hint() -> Seq<char> {
    "Read before Edit (file may have changed). Edit for small changes, Write for new files or full rewrites. Use Grep instead of grep in Bash. After code changes, run tests or build to verify."@
}

pub open spec fn browse_hint() -> Seq<char> {
    "WebFetch is for simple static pages (API responses, documentation, plain HTML). For search engines, JS-heavy sites, or interactive browsing, use WebBrowser instead: call search first, then snapshot to read the rendered page."@
}

/// The system prompt: identity and working directory, the sandbox note
/// when a workspace is set, the tool list, usage hints, the skill catalog
/// and the bodies of the skills the user referenced.
pub open spec fn prompt(
    cwd: Seq<char>,
    workspace_dir: Option<Seq<char>>,
    tools: Seq<UnifiedToolView>,
    skills: Seq<crate::skills::SkillView>,
    injected: Seq<(Seq<char>, Seq<char>)>,
) -> Seq<char> {
    "You are ClawTao, a desktop AI agent. Working directory: "@ + cwd + "."@ + (match workspace_dir {
        Some(ws) => if ws.len() > 0 {
            "\nSandbox is active: Bash commands are restricted to write only in "@ + ws
                + ". Use this path for all file operations."@
        } else {
            Seq::empty()
        },
        None => Seq::empty(),
    }) + "\n\nAvailable tools:"@ + tool_lines(tools) + "\n\n"@ + edit_hint() + "\n\n"@ + browse_hint() + "\n"@
        + catalog(skills) + injected_lines(injected)
}

/// Build the system prompt; `cwd` is the working directory as displayed.
pub fn build(
    tools: &Vec<UnifiedTool>,
    workspace_dir: Option<&str>,
    skills: &Vec<Skill>,
    injected_skills: &Vec<(String, String)>,
    cwd: &str,
) -> (r: String)
    ensures
        r@ == prompt(
            cwd@,
            match workspace_dir {
                Some(w) => Some(w@),
                None => None,
            },
            tool_views(tools@),
            skill_views(skills@),
            pair_views(injected_skills@),
        ),
{
    proof {
        reveal_strlit(
            "Read before Edit (file may have changed). Edit for small changes, Write for new files or full rewrites. Use Grep instead of grep in Bash. After code changes, run tests or build to verify.",
        );
        reveal_strlit(
            "WebFetch is for simple static pages (API responses, documentation, plain HTML). For search engines, JS-heavy sites, or interactive browsing, use WebBrowser instead: call search first, then snapshot to read the rendered page.",
        );
    }
    let mut out = owned("You are ClawTao, a desktop AI agent. Working directory: ");
    push_str(&mut out, cwd);
    push_str(&mut out, ".");
    let ghost head = out@;
    match workspace_dir {
        Some(ws) => {
            if !ws.is_empty() {
                push_str(&mut out, "\nSandbox is active: Bash commands are restricted to write only in ");
                push_str(&mut out, ws);
                push_str(&mut out, ". Use this path for all file operations.");
            }
        },
        None => {},
    }
    push_str(&mut out, "\n\nAvailable tools:");
    let ghost start = out@;
    let ghost tv = tool_views(tools@);
    let mut i: usize = 0;
    assert(tv.take(0) =~= Seq::<UnifiedToolView>::empty());
    assert(out@ =~= start + tool_lines(tv.take(0)));
    while i < tools.len()
        invariant
            i <= tools@.len(),
            tv == tool_views(tools@),
            out@ == start + tool_lines(tv.take(i as int)),
        decreases tools@.len() - i,
    {
        assert(tv.take(i + 1).drop_last() =~= tv.take(i as int));
        assert(tv.take(i + 1).last() == tools@[i as int]@);
        push_str(&mut out, "\n- ");
        push_str(&mut out, tools[i].name.as_str());
        push_str(&mut out, ": ");
        push_str(&mut out, tools[i].description.as_str());
        i += 1;
        assert(out@ =~= start + tool_lines(tv.take(i as int)));
    }
    assert(tv.take(tools@.len() as int) =~= tv);
    push_str(&mut out, "\n\n");
    push_str(
        &mut out,
        "Read before Edit (file may have changed). Edit for small changes, Write for new files or full rewrites. Use Grep instead of grep in Bash. After code changes, run tests or build to verify.",
    );
    push_str(&mut out, "\n\n");
    push_str(
        &mut out,
        "WebFetch is for simple static pages (API responses, documentation, plain HTML). For search engines, JS-heavy sites, or interactive browsing, use WebBrowser instead: call search first, then snapshot to read the rendered page.",
    );
    push_str(&mut out, "\n");
    let cat = format_for_prompt(skills);
    push_str(&mut out, cat.as_str());
    let ghost mid = out@;
    let ghost iv = pair_views(injected_skills@);
    let mut k: usize = 0;
    assert(iv.take(0) =~= Seq::<(Seq<char>, Seq<char>)>::empty());
    assert(out@ =~= mid + injected_lines(iv.take(0)));
    while k < injected_skills.len()
        invariant
            k <= injected_skills@.len(),
            iv == pair_views(injected_skills@),
            out@ == mid + injected_lines(iv.take(k as int)),
        decreases injected_skills@.len() - k,
    {
        assert(iv.take(k + 1).drop_last() =~= iv.take(k as int));
        assert(iv.take(k + 1).last() == (injected_skills@[k as int].0@, injected_skills@[k as int].1@));
        push_str(&mut out, "\n");
        push_str(&mut out, "\nThe user explicitly referenced the @");
        push_str(&mut out, injected_skills[k].0.as_str());
        push_str(&mut out, " skill. Its full content is loaded below. Follow its instructions.\n\n");
        push_str(&mut out, injected_skills[k].1.as_str());
        k += 1;
        assert(out@ =~= mid + injected_lines(iv.take(k as int)));
    }
    assert(iv.take(injected_skills@.len() as int) =~= iv);
    out
}

} // verus!
