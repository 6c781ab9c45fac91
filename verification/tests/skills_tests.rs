//! SKILL.md frontmatter, merging of skill sources, and the prompt catalog.

use clawtao::skills::{format_for_prompt, parse_frontmatter, scan_all, scan_one, trim_yaml_scalar, Skill, SkillSource};

#[test]
fn parse_simple_frontmatter() {
    let input = "---\nname: foo\ndescription: bar\n---\n\n# Body";
    let fm = parse_frontmatter(input).unwrap();
    assert_eq!(fm.name.as_deref(), Some("foo"));
    assert_eq!(fm.description.as_deref(), Some("bar"));
}

#[test]
fn parse_quoted_description() {
    let input = "---\nname: test\ndescription: \"A skill for things\"\n---\nbody";
    let fm = parse_frontmatter(input).unwrap();
    assert_eq!(fm.description.as_deref(), Some("A skill for things"));
}

#[test]
fn parse_missing_description() {
    let input = "---\nname: test\n---\nbody";
    let fm = parse_frontmatter(input).unwrap();
    assert_eq!(fm.name.as_deref(), Some("test"));
    assert_eq!(fm.description.as_deref(), None);
}

#[test]
fn parse_missing_name_returns_none() {
    let input = "---\ndescription: test\n---\nbody";
    let fm = parse_frontmatter(input).unwrap();
    assert!(fm.name.is_none());
}

#[test]
fn parse_no_frontmatter_returns_none() {
    assert!(parse_frontmatter("# Just a heading").is_none());
}

#[test]
fn format_empty_skills() {
    assert_eq!(format_for_prompt(&vec![]), "");
}

#[test]
fn format_includes_all_skills() {
    let skills = vec![
        Skill {
            name: "test".into(),
            description: "A test skill".into(),
            path: "/home/skills/test/SKILL.md".into(),
            base_dir: "/home/skills/test".into(),
            source: SkillSource::Installed,
        },
    ];
    let prompt = format_for_prompt(&skills);
    assert!(prompt.contains("<available_skills>"));
    assert!(prompt.contains("<name>test</name>"));
    assert!(prompt.contains("<description>A test skill</description>"));
}

fn skill(name: &str, source: SkillSource) -> Skill {
    Skill {
        name: name.into(),
        description: format!("{name} skill"),
        path: format!("/s/{name}/SKILL.md"),
        base_dir: format!("/s/{name}"),
        source,
    }
}

#[test]
fn catalog_format_is_exact() {
    let out = format_for_prompt(&vec![skill("a", SkillSource::Builtin)]);
    assert_eq!(
        out,
        "\nThe following skills provide specialized instructions for specific tasks.\nUse Read to load a skill file when the task matches its description.\n\n<available_skills>\n  <skill>\n    <name>a</name>\n    <description>a skill</description>\n    <location>/s/a/SKILL.md</location>\n  </skill>\n</available_skills>"
    );
}

#[test]
fn later_source_overrides_same_name_and_result_is_sorted() {
    let merged = scan_all(vec![
        skill("zeta", SkillSource::Builtin),
        skill("alpha", SkillSource::Builtin),
        skill("zeta", SkillSource::Installed),
        skill("mid", SkillSource::Project),
        skill("alpha", SkillSource::Project),
    ]);
    let names: Vec<&str> = merged.iter().map(|s| s.name.as_str()).collect();
    assert_eq!(names, vec!["alpha", "mid", "zeta"]);
    assert_eq!(merged[0].source, SkillSource::Project);
    assert_eq!(merged[2].source, SkillSource::Installed);
}

#[test]
fn trim_yaml_scalar_strips_one_pair_of_quotes() {
    assert_eq!(trim_yaml_scalar("  'quoted'  "), "quoted");
    assert_eq!(trim_yaml_scalar(" \"x\" "), "x");
    assert_eq!(trim_yaml_scalar(" plain "), "plain");
    assert_eq!(trim_yaml_scalar("\"mismatched'"), "\"mismatched'");
    assert_eq!(trim_yaml_scalar("\"\""), "");
}

#[test]
fn frontmatter_stops_at_closing_marker() {
    let fm = parse_frontmatter("---\nname: a\n---\nname: b\n").unwrap();
    assert_eq!(fm.name.as_deref(), Some("a"));
}

#[test]
fn scan_one_needs_a_name() {
    assert!(scan_one("---\ndescription: d\n---\n", "/p".into(), "/".into(), SkillSource::Builtin).is_none());
    assert!(scan_one("---\nname:\n---\n", "/p".into(), "/".into(), SkillSource::Builtin).is_none());
    let s = scan_one("---\nname: n\n---\n", "/p/SKILL.md".into(), "/p".into(), SkillSource::Project).unwrap();
    assert_eq!(s.name, "n");
    assert_eq!(s.description, "");
}
