//! The memory page.
use wake::memory::docs::{
    memory_badges, memory_display_path, memory_group_label, Badge, LabelledDoc, MemoryDoc,
    MemoryGroup, MemoryScope,
};
use wake::memory::docs::MemoryRow::{Doc, Group};
use wake::memory::page::{
    agent_row_clicked, project_row_clicked, render_memory, render_memory_nav, render_memory_reader,
    render_memory_row, row_time, user_row_clicked, Pane, RowView, Title,
};
use wake::memory::state::{
    memory_filter, MemoryCounts, MemoryNav, MemoryState, ProjectCount, UserMemories,
};
use wake::models::AgentId;
use wake::ui::Words;

fn doc(key: &str, scope: MemoryScope, updated_at: i64) -> MemoryDoc {
    MemoryDoc {
        key: key.to_string(),
        agent: AgentId::Zcode,
        host: String::new(),
        scope,
        group: MemoryGroup::Project("app".to_string()),
        title: format!("Title {key}"),
        path: format!("/m/{key}.md"),
        project_path: "/w/app".to_string(),
        updated_at,
        size_bytes: 10,
    }
}

fn labelled(key: &str, scope: MemoryScope, updated_at: i64) -> LabelledDoc {
    LabelledDoc { doc: doc(key, scope, updated_at), time_label: format!("day {}", updated_at / 10) }
}

fn counts() -> MemoryCounts {
    MemoryCounts {
        total: 4,
        user: 0,
        agents: vec![(AgentId::Zcode, 3), (AgentId::ClaudeCode, 1)],
        projects: vec![
            ProjectCount { path: "/w/app".to_string(), name: "app".to_string(), count: 3 },
            ProjectCount { path: String::new(), name: "?".to_string(), count: 1 },
        ],
    }
}

fn items() -> Vec<LabelledDoc> {
    vec![
        labelled("old", MemoryScope::Project, 12),
        labelled("b", MemoryScope::Project, 31),
        labelled("me", MemoryScope::User, 5),
        labelled("a", MemoryScope::Project, 31),
    ]
}

fn keys(s: &MemoryState) -> Vec<&str> {
    s.docs().iter().map(|d| d.key.as_str()).collect()
}

fn plain(w: &Words) -> String {
    match w {
        Words::Key(k) => k.to_string(),
        Words::Plain(p) => p.clone(),
        Words::Filled { template, args } => format!("{template} {args:?}"),
        Words::Counted { one, many, count } => format!("{one}|{many}|{count}"),
    }
}

#[test]
fn documents_are_sorted_and_put_under_headings() {
    let mut s = MemoryState::default();
    let step = s.memories_listed(items(), counts());
    assert_eq!(keys(&s), vec!["me", "a", "b", "old"]);
    assert_eq!(
        s.rows(),
        &vec![Group(0), Doc(0), Group(1), Doc(1), Doc(2), Group(3), Doc(3)]
    );
    assert_eq!((step.to_top, step.old_rows, step.new_rows), (false, 0, 7));
    let load = step.load.unwrap();
    assert_eq!((load.key.as_str(), load.path.as_str()), ("me", "/m/me.md"));
    assert!(s.is_selected("me"));
    assert_eq!(row_time(&s, 2), Some(31));
    assert_eq!(row_time(&s, 3), None);
    match render_memory_row(&s, 0, "day 0") {
        RowView::Heading(w) => assert_eq!(plain(&w), "User memory"),
        _ => panic!("a heading"),
    }
    match render_memory_row(&s, 2, "day 3") {
        RowView::Heading(w) => assert_eq!(plain(&w), "day 3"),
        _ => panic!("a heading"),
    }
    match render_memory_row(&s, 1, "") {
        RowView::Doc { key, selected, title, group, badges, updated_at, .. } => {
            assert_eq!((key.as_str(), selected, title.as_str()), ("me", true, "Title me"));
            assert_eq!(plain(&group), "app");
            assert!(badges.is_empty());
            assert_eq!(updated_at, 5);
        }
        _ => panic!("a document"),
    }
    assert!(matches!(render_memory_row(&s, 99, ""), RowView::Blank));
}

#[test]
fn the_users_own_list_goes_by_time_alone() {
    let mut s = MemoryState::default();
    s.set_memory_scope(MemoryNav::User, true, false);
    assert!(!s.memory_pins_user());
    let step = s.memories_listed(
        vec![labelled("x", MemoryScope::User, 5), labelled("y", MemoryScope::User, 25)],
        counts(),
    );
    assert!(step.to_top);
    assert_eq!(s.rows(), &vec![Group(0), Doc(0), Group(1), Doc(1)]);
    s.reset_memory_scope();
    assert!(s.memory_pins_user());
}

#[test]
fn the_selection_survives_a_new_list() {
    let mut s = MemoryState::default();
    s.memories_listed(items(), counts());
    assert!(s.select_memory("nowhere").is_none());
    assert_eq!(s.select_memory("b").unwrap().path, "/m/b.md");
    assert!(s.memory_loaded("b", "/m/b.md".to_string(), Ok("text".to_string())));
    assert!(s.memories_listed(items(), counts()).load.is_none());
    assert!(s.is_selected("b") && s.loaded().is_some());
    let mut changed = items();
    changed[1].doc.size_bytes = 11;
    let step = s.memories_listed(changed, counts());
    assert_eq!(step.load.unwrap().key, "b");
    assert!(s.is_selected("b") && s.loaded().is_none());
    let step = s.memories_listed(vec![labelled("z", MemoryScope::Project, 1)], counts());
    assert_eq!(step.load.unwrap().key, "z");
    assert!(s.memories_listed(vec![], counts()).load.is_none());
    assert_eq!(s.selected_index(), None);
}

#[test]
fn a_late_text_does_not_replace_a_newer_selection() {
    let mut s = MemoryState::default();
    s.memories_listed(items(), counts());
    s.select_memory("a");
    s.select_memory("b");
    assert!(!s.memory_loaded("a", "/m/a.md".to_string(), Ok("late".to_string())));
    assert!(s.loaded().is_none());
    assert!(s.memory_loaded("b", "/m/b.md".to_string(), Err("gone".to_string())));
    assert_eq!(plain(&s.loaded().unwrap().body), "Could not read this memory file: {} [\"gone\"]");
}

#[test]
fn requests_to_read_again_wait_and_are_served() {
    let mut s = MemoryState::default();
    assert_eq!(s.refresh_memories(false), Some("Memory refreshed"));
    assert!(s.is_syncing());
    assert_eq!(s.refresh_memories(false), None);
    let end = s.sync_finished(true, false);
    assert!(end.begins && end.reload.is_some());
    assert!(s.is_syncing());
    let end = s.sync_finished(false, false);
    assert!(!end.begins && end.reload.is_none());
    assert!(!s.is_syncing());
    assert!(!s.sync_memories_quietly(true));
    assert!(!s.is_syncing());
    assert!(s.drain_pending_memory_sync(false));
    assert!(!s.drain_pending_memory_sync(false));
    assert!(!s.start_memory_sync(false));
    let end = s.sync_finished(true, true);
    assert!(!end.begins && end.reload.is_some());
    assert!(!s.is_syncing());
    assert!(s.drain_pending_memory_sync(false));
    s.memories_listed(items(), counts());
    assert!(s.sync_finished(true, true).reload.is_none());
    assert!(s.start_memory_sync(false));
    assert!(s.sync_finished(true, false).reload.is_some());
}

#[test]
fn a_list_is_asked_for_when_it_is_needed() {
    let mut s = MemoryState::default();
    assert!(s.reload_memories(false, false).is_none());
    assert!(!s.is_loading());
    assert!(s.reload_memories(true, true).is_some());
    assert!(s.is_loading());
    assert!(matches!(render_memory(&s, false, "Some Agent").pane, Pane::Spinner));
    s.reload_failed();
    assert!(!s.is_loading());
    let page = render_memory(&s, false, "Some Agent");
    assert!(matches!(page.pane, Pane::Empty));
    assert_eq!((page.empty_icon, page.empty_title), ("icons/file-text.svg", "No memory files yet"));
    assert_eq!(
        page.empty_text,
        "Agents write these as they work: Some Agent's auto-memory, Codex's memories, ZCode's \
         project memory. They show up here once they exist."
    );
    s.memories_listed(items(), counts());
    assert!(s.reload_memories(true, true).is_none());
    assert!(s.reload_memories(true, false).is_some());
    assert!(s.set_memory_scope(MemoryNav::All, false, false).is_none());
    let filter = s.set_memory_scope(MemoryNav::Agent(AgentId::Zcode), true, true).unwrap();
    assert_eq!(filter.agents, vec![AgentId::Zcode]);
    assert!(!s.is_loading());
}

#[test]
fn filters_follow_the_sidebar() {
    let f = memory_filter(&MemoryNav::All);
    assert!(f.agents.is_empty() && f.project_paths.is_empty() && !f.unattributed);
    assert_eq!(f.user, UserMemories::Alongside);
    assert_eq!(memory_filter(&MemoryNav::User).user, UserMemories::Only);
    let f = memory_filter(&MemoryNav::Project("/w".to_string()));
    assert_eq!((f.project_paths, f.unattributed, f.user), (vec!["/w".to_string()], false, UserMemories::Excluded));
    let f = memory_filter(&MemoryNav::Project(String::new()));
    assert_eq!((f.project_paths.len(), f.unattributed, f.user), (0, true, UserMemories::Excluded));
}

#[test]
fn titles_name_what_is_listed() {
    let mut s = MemoryState::default();
    s.memories_listed(items(), counts());
    let mut title = |nav: MemoryNav| {
        s.set_memory_scope(nav, true, false);
        match render_memory(&s, false, "Some Agent").title {
            Title::Words(w) => plain(&w),
            Title::Agent(a) => format!("{a:?}"),
        }
    };
    assert_eq!(title(MemoryNav::All), "All Memory");
    assert_eq!(title(MemoryNav::User), "User memory");
    assert_eq!(title(MemoryNav::Agent(AgentId::Zcode)), "Zcode");
    assert_eq!(title(MemoryNav::Project("/w/app".to_string())), "app");
    assert_eq!(title(MemoryNav::Project("/gone".to_string())), "Projects");
    assert_eq!(title(MemoryNav::Project(String::new())), "Unknown project");
}

#[test]
fn the_page_counts_and_reads() {
    let mut s = MemoryState::default();
    s.memories_listed(items(), counts());
    let page = render_memory(&s, true, "Some Agent");
    assert_eq!(plain(&page.subtitle), "{} memory file|{} memory files|4");
    assert!(page.refresh_busy && page.has_list);
    assert_eq!(page.pane, Pane::Reader(0));
    assert!(!render_memory(&s, false, "Some Agent").refresh_busy);
    let thread = MemoryDoc {
        path: "/db.sqlite#t1".to_string(),
        host: "box".to_string(),
        group: MemoryGroup::Unknown,
        ..doc("k", MemoryScope::Thread, 1)
    };
    let view = render_memory_reader(&s, &thread, "today", "Monday", false);
    assert_eq!(view.source_path, "/db.sqlite");
    assert_eq!(plain(&view.updated), "Updated {} [\"today\"]");
    assert_eq!(plain(&view.updated_tooltip), "Updated {} [\"Monday\"]");
    assert_eq!(view.link_base, "/w/app");
    assert_eq!(view.content_id, "memory-k");
    assert!(view.body.is_none());
    assert_eq!(view.badges.len(), 2);
    let file = doc("me", MemoryScope::User, 1);
    assert_eq!(render_memory_reader(&s, &file, "today", "Monday", false).link_base, "/m");
    s.memory_loaded("me", "/real/me.md".to_string(), Ok("x".to_string()));
    let view = render_memory_reader(&s, &file, "today", "Monday", false);
    assert_eq!((view.source_path.as_str(), view.link_base.as_str()), ("/real/me.md", "/w/app"));
    assert_eq!(view.body.as_ref().map(plain).as_deref(), Some("x"));
    s.memory_loaded("me", "/real/me.md".to_string(), Err("gone".to_string()));
    let view = render_memory_reader(&s, &file, "today", "Monday", false);
    assert_eq!(
        view.body.as_ref().map(plain).as_deref(),
        Some("Could not read this memory file: {} [\"gone\"]")
    );
}

#[test]
fn documents_carry_marks_and_paths() {
    let mut d = doc("k", MemoryScope::Project, 1);
    d.path = "/a#b".to_string();
    assert_eq!(memory_display_path(&d), "/a#b");
    assert!(memory_badges(&d).is_empty());
    d.scope = MemoryScope::Thread;
    assert_eq!(memory_display_path(&d), "/a");
    d.host = "box".to_string();
    let marks: Vec<String> = memory_badges(&d)
        .iter()
        .map(|b| match b {
            Badge::Label(l) => l.to_string(),
            Badge::Host(h) => format!("@{h}"),
        })
        .collect();
    assert_eq!(marks, vec!["session memory", "@box"]);
    d.group = MemoryGroup::User;
    assert_eq!(plain(&memory_group_label(&d)), "User memory");
    d.group = MemoryGroup::Unknown;
    assert_eq!(plain(&memory_group_label(&d)), "Unknown project");
}

#[test]
fn the_sidebar_marks_what_is_listed() {
    let mut s = MemoryState::default();
    s.memories_listed(items(), counts());
    let nav = render_memory_nav(&s);
    assert_eq!((nav.all.count, nav.all.active), (Some(4), true));
    assert_eq!((nav.user.count, nav.user.active), (None, false));
    assert_eq!(plain(&nav.projects[1].label), "Unknown project");
    s.set_memory_scope(agent_row_clicked(Some(AgentId::ClaudeCode)), true, false);
    let nav = render_memory_nav(&s);
    let active: Vec<bool> = nav.agents.iter().map(|a| a.active).collect();
    assert_eq!(active, vec![false, true]);
    s.set_memory_scope(project_row_clicked(Some("/w/app".to_string())), true, false);
    let nav = render_memory_nav(&s);
    assert!(nav.projects[0].active && !nav.projects[1].active && !nav.all.active);
    assert!(matches!(project_row_clicked(None), MemoryNav::All));
    assert!(matches!(agent_row_clicked(None), MemoryNav::All));
    assert!(matches!(user_row_clicked(&MemoryNav::All), MemoryNav::User));
    assert!(matches!(user_row_clicked(&MemoryNav::User), MemoryNav::All));
}
