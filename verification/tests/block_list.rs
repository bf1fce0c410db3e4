use banlist::block_list::{AppendStatus, BlockList};

fn owned(names: &[&str]) -> Vec<String> {
    names.iter().map(|name| name.to_string()).collect()
}

#[test]
fn new_list_is_empty() {
    let list = BlockList::new();
    assert_eq!(list.len(), 0);
    assert!(list.names().is_empty());
    assert_eq!(list.render(), "");
}

#[test]
fn parse_reads_one_name_per_line() {
    let list = BlockList::parse("alice\nbob\ncarol");
    assert_eq!(list.names(), &owned(&["alice", "bob", "carol"]));
    assert_eq!(list.len(), 3);
}

#[test]
fn parse_of_empty_text_is_empty_list() {
    let list = BlockList::parse("");
    assert_eq!(list.len(), 0);
}

#[test]
fn parse_ignores_one_trailing_newline() {
    let with = BlockList::parse("alice\nbob\n");
    let without = BlockList::parse("alice\nbob");
    assert_eq!(with.names(), without.names());
    assert_eq!(with.names(), &owned(&["alice", "bob"]));
}

#[test]
fn parse_keeps_empty_lines_that_are_not_last() {
    let list = BlockList::parse("\nalice\n\nbob\n\n");
    assert_eq!(list.names(), &owned(&["", "alice", "", "bob", ""]));
}

#[test]
fn parse_of_single_newline_is_one_empty_name() {
    let list = BlockList::parse("\n");
    assert_eq!(list.names(), &owned(&[""]));
}

#[test]
fn parse_keeps_other_white_space() {
    let list = BlockList::parse(" alice \r\nbob\t");
    assert_eq!(list.names(), &owned(&[" alice \r", "bob\t"]));
}

#[test]
fn parse_handles_characters_of_several_bytes() {
    let list = BlockList::parse("zoë\n日本語\n🦀");
    assert_eq!(list.names(), &owned(&["zoë", "日本語", "🦀"]));
    assert!(list.contains("日本語"));
}

#[test]
fn render_joins_with_newlines() {
    let mut list = BlockList::new();
    list.append("alice");
    list.append("bob");
    list.append("carol");
    assert_eq!(list.render(), "alice\nbob\ncarol");
}

#[test]
fn render_of_single_name_has_no_newline() {
    let mut list = BlockList::new();
    list.append("alice");
    assert_eq!(list.render(), "alice");
}

#[test]
fn render_then_parse_gives_the_list_back() {
    let mut list = BlockList::new();
    list.append("alice");
    list.append("bob smith");
    list.append("Ünïcødé");
    let again = BlockList::parse(&list.render());
    assert_eq!(again.names(), list.names());
}

#[test]
fn parse_then_render_gives_the_text_back() {
    let text = "alice\nbob\n\ncarol";
    assert_eq!(BlockList::parse(text).render(), text);
}

#[test]
fn contains_is_exact_and_case_sensitive() {
    let list = BlockList::parse("alice\nBob");
    assert!(list.contains("alice"));
    assert!(list.contains("Bob"));
    assert!(!list.contains("Alice"));
    assert!(!list.contains("bob"));
    assert!(!list.contains("alic"));
    assert!(!list.contains("alice "));
    assert!(!list.contains(""));
}

#[test]
fn contains_finds_a_name_that_stands_twice() {
    let list = BlockList::parse("eve\nmallory\neve");
    assert!(list.contains("eve"));
    assert_eq!(list.len(), 3);
}

#[test]
fn append_adds_a_new_name_at_the_end() {
    let mut list = BlockList::parse("alice\nbob");
    assert_eq!(list.append("carol"), AppendStatus::Added);
    assert_eq!(list.names(), &owned(&["alice", "bob", "carol"]));
}

#[test]
fn append_of_a_present_name_changes_nothing() {
    let mut list = BlockList::parse("alice\nbob");
    assert_eq!(list.append("alice"), AppendStatus::AlreadyPresent);
    assert_eq!(list.names(), &owned(&["alice", "bob"]));
}

#[test]
fn append_twice_keeps_one_entry() {
    let mut list = BlockList::new();
    assert_eq!(list.append("alice"), AppendStatus::Added);
    assert_eq!(list.append("alice"), AppendStatus::AlreadyPresent);
    assert_eq!(list.names(), &owned(&["alice"]));
    assert_eq!(list.names().iter().filter(|name| name.as_str() == "alice").count(), 1);
}

#[test]
fn append_tells_names_apart_by_case() {
    let mut list = BlockList::new();
    assert_eq!(list.append("alice"), AppendStatus::Added);
    assert_eq!(list.append("Alice"), AppendStatus::Added);
    assert_eq!(list.len(), 2);
}

#[test]
fn message_for_added_name() {
    assert_eq!(AppendStatus::Added.message("eve"), "eve was successfully added to the banlist");
}

#[test]
fn message_for_present_name() {
    assert_eq!(AppendStatus::AlreadyPresent.message("eve"), "eve is already on the ban list");
}

#[test]
fn message_keeps_the_name_as_given() {
    assert_eq!(
        AppendStatus::Added.message("Dr. Évil 😈"),
        "Dr. Évil 😈 was successfully added to the banlist"
    );
    assert_eq!(AppendStatus::AlreadyPresent.message(""), " is already on the ban list");
}
