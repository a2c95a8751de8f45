use mewcode::context::memory::{project_profile, MemoryStore};
use mewcode::skills::{catalog_header, to_entry, LoadedSkill, SkillRegistry};
use mewcode::tools::policy::is_plan_read_only_command;

fn s(text: &str) -> String {
    text.to_string()
}

#[test]
fn memory_paths_and_section() {
    let data = vec![s("/data")];
    let store = MemoryStore::with_profile(&data, "proj-1");
    assert_eq!(store.path(), &vec![s("/data"), s("memories"), s("proj-1.md")]);
    assert_eq!(store.data_dir(), Some(data.clone()));
    let default = MemoryStore::new(&data);
    assert_eq!(default.path(), &vec![s("/data"), s("memories"), s("default.md")]);
    assert_eq!(store.format("  likes tea \n"), Some(s("<memory>\nlikes tea\n</memory>")));
    assert_eq!(store.format(" \n "), None);
}

fn skill(name: &str, hidden: bool, user: bool) -> LoadedSkill {
    LoadedSkill {
        name: s(name),
        description: s("does things"),
        source: s("project"),
        assets: vec![s("references/a.md")],
        disable_model_invocation: hidden,
        user_invocable: user,
        catalog_entry: format!("- {name}: does things"),
        catalog_entry_truncated: format!("- {name}"),
    }
}

#[test]
fn catalog_lists_model_visible_skills() {
    let empty = SkillRegistry { skills: vec![] };
    assert_eq!(empty.catalog_for_system_prompt(), "");
    let reg = SkillRegistry { skills: vec![skill("review", false, true), skill("secret", true, false)] };
    let catalog = reg.catalog_for_system_prompt();
    assert_eq!(catalog, format!("{}- review: does things\n</skills>\n", catalog_header()));
    let tool = reg.list_for_tool();
    assert_eq!(tool.len(), 1);
    assert_eq!(tool[0].name, "review");
    let user = reg.list_for_user();
    assert_eq!(user.len(), 1);
    let entry = to_entry(&reg.skills[1]);
    assert_eq!(entry.name, "secret");
    assert_eq!(entry.assets, vec![s("references/a.md")]);
}

#[test]
fn plan_mode_allows_only_read_only_commands() {
    assert!(is_plan_read_only_command("git status"));
    assert!(is_plan_read_only_command("  ls -la  "));
    assert!(is_plan_read_only_command("rg foo src"));
    assert!(!is_plan_read_only_command("git push"));
    assert!(!is_plan_read_only_command("ls; rm -rf /"));
    assert!(!is_plan_read_only_command("cat a > b"));
    assert!(!is_plan_read_only_command("lsblk"));
    assert!(!is_plan_read_only_command(""));
}

#[test]
fn project_profiles_sanitise_the_directory_name() {
    assert_eq!(project_profile(true, Some("my.app"), 0xabc), "my-app-0000000000000abc");
    assert_eq!(project_profile(true, Some("..hidden"), 1), "hidden-0000000000000001");
    assert_eq!(project_profile(true, Some("---"), u64::MAX), "project-ffffffffffffffff");
    assert_eq!(project_profile(true, None, 16), "project-0000000000000010");
    assert_eq!(project_profile(true, Some("日本_x"), 2), "日本_x-0000000000000002");
    assert_eq!(project_profile(false, Some("ignored"), 255), "default");
    let unresolved = MemoryStore::for_project(&vec![s("/d")], false, None, 7);
    assert_eq!(unresolved.path(), MemoryStore::new(&vec![s("/d")]).path());
    let store = MemoryStore::for_project(&vec![s("/d")], true, Some("repo"), 1);
    assert_eq!(store.path(), &vec![s("/d"), s("memories"), s("repo-0000000000000001.md")]);
}
