use layoutswap::script::lock::{split_lines, LockHolder, LOCK_FILE_NAME};

#[test]
fn reads_the_layout_the_script_writes() {
    let holder = LockHolder::from_text("pid=4242\r\nlayout=Desk\r\n");
    assert_eq!(holder.layout.as_deref(), Some("Desk"));
    assert_eq!(holder.layout_name(), "Desk");
    assert!(holder.names("Desk"));
    assert!(!holder.names("Film"));
}

#[test]
fn an_empty_or_odd_lock_still_counts_as_held() {
    let holder = LockHolder::from_text("");
    assert_eq!(holder.layout, None);
    assert_eq!(holder.layout_name(), "another layout");
    let blank = LockHolder::from_text("layout=   \n");
    assert_eq!(blank.layout, None);
    let last = LockHolder::from_text("layout=One\nlayout=  Two \n");
    assert_eq!(last.layout.as_deref(), Some("Two"));
}

#[test]
fn lines_split_as_str_lines_does() {
    assert_eq!(split_lines("a\r\nb\n\nc"), vec!["a", "b", "", "c"]);
    assert_eq!(split_lines("a\n"), vec!["a"]);
    assert!(split_lines("").is_empty());
    assert_eq!(LOCK_FILE_NAME, "switch.lock");
}
