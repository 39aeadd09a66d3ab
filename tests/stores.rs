use shortlink::audit::{AuditRepository, InMemoryAuditRepo};
use shortlink::clicks::{decimal_u64, ClickRepository, InMemoryClickRepo};
use shortlink::groups::{GroupRepository, InMemoryGroupRepo};
use shortlink::memory_repo::InMemoryRepo;
use shortlink::model::{
    AuditAction, AuditEntry, ClickEvent, CoreError, GroupMember, GroupRole, LinkGroup,
    ListOptions, ShortLink, Slug, UserEmail,
};
use shortlink::repository::LinkRepository;
use shortlink::storage::{map_sqerr, str_to_role, DynamoTables};

fn email(s: &str) -> UserEmail {
    UserEmail::new(s).unwrap()
}

fn group(id: &str, owner: &str) -> LinkGroup {
    LinkGroup {
        id: id.to_string(),
        name: format!("group {id}"),
        description: None,
        created_at: 0,
        created_by: email(owner),
    }
}

fn member(gid: &str, who: &str, role: GroupRole) -> GroupMember {
    GroupMember {
        group_id: gid.to_string(),
        user_email: email(who),
        role,
        added_at: 0,
        added_by: email("owner@e.com"),
    }
}

fn link(slug: &str, created_at: u64, url: &str) -> ShortLink {
    let mut l = ShortLink::new(Slug::new(slug).unwrap(), url.to_string(), created_at, email("u@e.com"));
    l.description = Some(format!("About {slug}"));
    l
}

#[test]
fn groups_create_members_and_delete() {
    let mut repo = InMemoryGroupRepo::new();
    repo.create_group(group("g1", "owner@e.com")).unwrap();
    assert!(matches!(repo.create_group(group("g1", "x@e.com")), Err(CoreError::AlreadyExists)));
    assert!(matches!(repo.add_member(member("nope", "a@e.com", GroupRole::Viewer)), Err(CoreError::NotFound)));
    repo.add_member(member("g1", "a@e.com", GroupRole::Editor)).unwrap();
    assert!(matches!(repo.add_member(member("g1", "a@e.com", GroupRole::Viewer)), Err(CoreError::AlreadyExists)));
    assert_eq!(repo.list_members("g1").unwrap().len(), 1);
    assert_eq!(repo.get_member("g1", &email("a@e.com")).unwrap().unwrap().role, GroupRole::Editor);
    assert_eq!(repo.list_groups(&email("a@e.com")).unwrap().len(), 1);
    assert_eq!(repo.list_groups(&email("b@e.com")).unwrap().len(), 0);
    let mine = repo.get_user_groups(&email("owner@e.com")).unwrap();
    assert_eq!(mine.len(), 1);
    assert_eq!(mine[0].1, GroupRole::Admin);
    let theirs = repo.get_user_groups(&email("a@e.com")).unwrap();
    assert_eq!(theirs[0].1, GroupRole::Editor);
    let mut renamed = group("g1", "owner@e.com");
    renamed.name = "renamed".to_string();
    repo.update_group(&renamed).unwrap();
    assert_eq!(repo.get_group("g1").unwrap().unwrap().name, "renamed");
    assert!(matches!(repo.update_group(&group("g2", "o@e.com")), Err(CoreError::NotFound)));
    repo.remove_member("g1", &email("a@e.com")).unwrap();
    assert!(matches!(repo.remove_member("g1", &email("a@e.com")), Err(CoreError::NotFound)));
    repo.add_member(member("g1", "c@e.com", GroupRole::Viewer)).unwrap();
    repo.delete_group("g1").unwrap();
    assert!(repo.get_group("g1").unwrap().is_none());
    assert_eq!(repo.list_members("g1").unwrap().len(), 0);
    assert!(matches!(repo.delete_group("g1"), Err(CoreError::NotFound)));
}

fn click(slug: &str, at: u64) -> ClickEvent {
    ClickEvent { slug: Slug::new(slug).unwrap(), clicked_at: at, user_agent: None, referrer: None, country: None }
}

#[test]
fn clicks_newest_first_and_counted() {
    let mut repo = InMemoryClickRepo::new();
    for at in [10, 30, 20, 40] {
        repo.record_click(click("a", at)).unwrap();
    }
    repo.record_click(click("b", 50)).unwrap();
    let got = repo.get_clicks(&Slug::new("a").unwrap(), 3).unwrap();
    let times: Vec<u64> = got.iter().map(|c| c.clicked_at).collect();
    assert_eq!(times, vec![40, 30, 20]);
    assert_eq!(repo.get_click_count_since(&Slug::new("a").unwrap(), 20).unwrap(), 3);
    assert_eq!(repo.get_click_count_since(&Slug::new("b").unwrap(), 0).unwrap(), 1);
}

#[test]
fn clicks_grouped_by_day_in_key_order() {
    let mut repo = InMemoryClickRepo::new();
    let day = 86_400;
    for at in [9 * day + 5, 10 * day + 1, 10 * day + 2, 2 * day] {
        repo.record_click(click("a", at)).unwrap();
    }
    let now = 11 * day;
    let by_day = repo.get_clicks_by_day(&Slug::new("a").unwrap(), 3, now).unwrap();
    assert_eq!(by_day, vec![("day-10".to_string(), 2), ("day-9".to_string(), 1)]);
    let all = repo.get_clicks_by_day(&Slug::new("a").unwrap(), 1000, now).unwrap();
    assert_eq!(all.len(), 3);
    assert_eq!(all[0].0, "day-10");
    assert_eq!(decimal_u64(1234567), "1234567");
}

fn entry(id: &str, at: u64, who: &str, target: &str) -> AuditEntry {
    AuditEntry {
        id: id.to_string(),
        timestamp: at,
        actor_email: email(who),
        action: AuditAction::Update,
        target_type: "link".to_string(),
        target_id: target.to_string(),
        changes: None,
    }
}

#[test]
fn audit_lists_newest_first() {
    let mut repo = InMemoryAuditRepo::new();
    repo.log(entry("1", 5, "a@e.com", "x")).unwrap();
    repo.log(entry("2", 9, "b@e.com", "x")).unwrap();
    repo.log(entry("3", 7, "a@e.com", "y")).unwrap();
    let ids = |v: Vec<AuditEntry>| v.into_iter().map(|e| e.id).collect::<Vec<_>>();
    assert_eq!(ids(repo.list_recent(10).unwrap()), vec!["2", "3", "1"]);
    assert_eq!(ids(repo.list_recent(1).unwrap()), vec!["2"]);
    assert_eq!(ids(repo.list_by_actor(&email("a@e.com"), 10).unwrap()), vec!["3", "1"]);
    assert_eq!(ids(repo.list_for_target("link", "x", 10).unwrap()), vec!["2", "1"]);
}

#[test]
fn search_pages_and_bulk_changes() {
    let mut repo = InMemoryRepo::new();
    repo.put(link("alpha", 3, "https://Example.com/A")).unwrap();
    repo.put(link("beta", 1, "https://other.org")).unwrap();
    let mut g = link("gamma", 2, "https://example.com/g");
    g.group_id = Some("team".to_string());
    repo.put(g).unwrap();
    assert_eq!(repo.search("EXAMPLE", 10).unwrap().len(), 2);
    assert_eq!(repo.search("about beta", 10).unwrap().len(), 1);
    assert_eq!(repo.list_by_group("team", 10).unwrap().len(), 1);
    let page = repo
        .list_paginated(&ListOptions { limit: 2, offset: 0, ..Default::default() })
        .unwrap();
    assert_eq!(page.total, 3);
    assert!(page.has_more);
    let order: Vec<&str> = page.items.iter().map(|l| l.slug.as_str()).collect();
    assert_eq!(order, vec!["alpha", "gamma"]);
    let last = repo
        .list_paginated(&ListOptions { limit: 2, offset: 2, ..Default::default() })
        .unwrap();
    assert_eq!(last.items.len(), 1);
    assert!(!last.has_more);
    let slugs = vec![Slug::new("alpha").unwrap(), Slug::new("missing").unwrap(), Slug::new("alpha").unwrap()];
    assert_eq!(repo.bulk_delete(&slugs, 9).unwrap(), 2);
    assert_eq!(repo.get(&Slug::new("alpha").unwrap()).unwrap().unwrap().deleted_at, Some(9));
    let hidden = repo
        .list_paginated(&ListOptions { limit: 10, offset: 0, ..Default::default() })
        .unwrap();
    assert_eq!(hidden.total, 2);
    let shown = repo
        .list_paginated(&ListOptions { limit: 10, offset: 0, include_deleted: true, ..Default::default() })
        .unwrap();
    assert_eq!(shown.total, 3);
    assert_eq!(repo.bulk_update_active(&[Slug::new("beta").unwrap()], false, 4).unwrap(), 1);
    let beta = repo.get(&Slug::new("beta").unwrap()).unwrap().unwrap();
    assert!(!beta.is_active);
    assert_eq!(beta.updated_at, Some(4));
}

#[test]
fn storage_settings_and_roles() {
    let t = DynamoTables::new("Links", "Counters");
    assert_eq!(t.shortlinks, "Links");
    assert_eq!(t.counters, "Counters");
    assert_eq!(t.groups, "Groups");
    assert_eq!(t.group_members, "GroupMembers");
    assert_eq!(t.clicks, "Clicks");
    assert_eq!(t.audit, "AuditLog");
    assert_eq!(str_to_role("admin"), GroupRole::Admin);
    assert_eq!(str_to_role("editor"), GroupRole::Editor);
    assert_eq!(str_to_role("Admin"), GroupRole::Viewer);
    assert!(matches!(map_sqerr("locked"), CoreError::Repository(m) if m == "sqlite error: locked"));
}

#[test]
fn error_messages() {
    assert_eq!(CoreError::InvalidUrl("empty".to_string()).message(), "invalid url: empty");
    assert_eq!(CoreError::NotFound.message(), "not found");
    assert_eq!(
        shortlink::claims::AuthError::InvalidPayload("email").message(),
        "invalid token payload: email"
    );
    let e = shortlink::config::ConfigError { field: "LISTEN_PORT", message: "bad".to_string() };
    assert_eq!(e.describe(), "Configuration error for LISTEN_PORT: bad");
}
