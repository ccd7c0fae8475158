use garterm::ui::split::EVEN_RATIO;
use garterm::ui::tabbar::{shorten_path, truncate_with_ellipsis};
use garterm::ui::{Direction, PaneId, SplitDirection, SplitNode, StartupCmdState, TabBar, TabManager, TAB_BAR_HEIGHT};

#[test]
fn test_split_horizontal() {
    let mut tree = SplitNode::leaf(PaneId(1));
    tree.split(SplitDirection::Horizontal, PaneId(2), true);

    let layouts = tree.layout(0, 0, 100, 50);
    assert_eq!(layouts.len(), 2);
    assert_eq!(layouts[0].width, 50);
    assert_eq!(layouts[1].width, 50);
}

#[test]
fn test_split_vertical() {
    let mut tree = SplitNode::leaf(PaneId(1));
    tree.split(SplitDirection::Vertical, PaneId(2), true);

    let layouts = tree.layout(0, 0, 100, 100);
    assert_eq!(layouts.len(), 2);
    assert_eq!(layouts[0].height, 50);
    assert_eq!(layouts[1].height, 50);
}

#[test]
fn test_remove_pane() {
    let mut tree = SplitNode::leaf(PaneId(1));
    tree.split(SplitDirection::Horizontal, PaneId(2), true);

    let sibling = tree.remove(PaneId(2));
    assert_eq!(sibling, Some(PaneId(1)));

    // Tree should now be a single leaf
    assert!(matches!(tree, SplitNode::Leaf(PaneId(1))));
}

#[test]
fn layout_tiles_the_rectangle() {
    let mut tree = SplitNode::leaf(PaneId(1));
    tree.split(SplitDirection::Horizontal, PaneId(2), true);
    assert!(tree.split_pane(PaneId(2), SplitDirection::Vertical, PaneId(3), true));
    let layouts = tree.layout(10, 20, 101, 51);
    assert_eq!(layouts.len(), 3);
    let area: u32 = layouts.iter().map(|l| l.width * l.height).sum();
    assert_eq!(area, 101 * 51);
    for l in &layouts {
        assert!(l.x >= 10 && l.x + l.width <= 111);
        assert!(l.y >= 20 && l.y + l.height <= 71);
    }
    assert_eq!(tree.all_panes(), vec![PaneId(1), PaneId(2), PaneId(3)]);
    assert!(!tree.split_pane(PaneId(9), SplitDirection::Vertical, PaneId(4), true));
}

#[test]
fn split_before_puts_new_pane_first() {
    let mut tree = SplitNode::leaf(PaneId(1));
    tree.split(SplitDirection::Horizontal, PaneId(2), false);
    assert_eq!(tree.all_panes(), vec![PaneId(2), PaneId(1)]);
    assert_eq!(tree.first_pane(), Some(PaneId(2)));
}

#[test]
fn neighbor_and_resize() {
    let mut tree = SplitNode::leaf(PaneId(1));
    tree.split(SplitDirection::Horizontal, PaneId(2), true);
    let layouts = tree.layout(0, 0, 100, 50);
    assert_eq!(tree.find_neighbor(PaneId(1), Direction::Right, &layouts), Some(PaneId(2)));
    assert_eq!(tree.find_neighbor(PaneId(1), Direction::Left, &layouts), None);
    assert!(tree.resize_pane(PaneId(1), 100));
    let layouts = tree.layout(0, 0, 100, 50);
    assert_eq!(layouts[0].width, 60);
    // Ratios stop at 0.9.
    assert!(tree.resize_pane(PaneId(1), 1000));
    assert_eq!(tree.layout(0, 0, 100, 50)[0].width, 90);
    assert!(!tree.resize_pane(PaneId(7), 100));
    let _ = EVEN_RATIO;
}

#[test]
fn removing_unknown_or_last_pane() {
    let mut tree = SplitNode::leaf(PaneId(1));
    assert_eq!(tree.remove(PaneId(1)), None);
    assert_eq!(tree.remove(PaneId(5)), None);
    assert!(tree.find(PaneId(1)).is_some());
}

#[test]
fn tabs_next_then_prev() {
    let mut m: TabManager<u8> = TabManager::new("/bin/sh", 0);
    m.new_tab(1);
    m.new_tab(2);
    assert_eq!(m.tab_count(), 3);
    let start = m.active_tab_id();
    m.next_tab();
    assert_ne!(m.active_tab_id(), start);
    m.prev_tab();
    assert_eq!(m.active_tab_id(), start);
    m.prev_tab();
    m.next_tab();
    assert_eq!(m.active_tab_id(), start);
}

#[test]
fn tabs_close_and_switch() {
    let mut m: TabManager<u8> = TabManager::new("/bin/sh", 0);
    assert!(!m.close_tab());
    let t1 = m.new_tab(1);
    let t2 = m.new_tab(2);
    m.switch_to_tab(2);
    assert_eq!(m.active_tab_id(), t1);
    assert!(m.close_tab());
    assert_eq!(m.active_tab_id(), t2);
    assert_eq!(m.tab_count(), 2);
    assert_eq!(m.shell(), "/bin/sh");
}

#[test]
fn tab_panes_split_and_close() {
    let mut m: TabManager<u8> = TabManager::new("/bin/sh", 10);
    let p = m.split(SplitDirection::Horizontal, 11).unwrap();
    assert_eq!(m.focused_pane(), Some(&11));
    assert!(m.focus_pane(PaneId(0)));
    assert_eq!(m.focused_pane(), Some(&10));
    assert!(m.focus_pane(p));
    assert!(m.close_pane());
    assert_eq!(m.focused_pane(), Some(&10));
}

#[test]
fn tab_bar_space() {
    let bar = TabBar::new();
    assert_eq!(bar.content_offset(1), 0);
    assert_eq!(bar.content_offset(2), TAB_BAR_HEIGHT);
    assert_eq!(bar.content_height(600, 2), 600 - TAB_BAR_HEIGHT);
    assert_eq!(bar.content_height(10, 2), 0);
    assert_eq!(bar.content_height(600, 1), 600);
}

#[test]
fn path_shortening() {
    assert_eq!(shorten_path("vim", None), "vim");
    assert_eq!(shorten_path("/home/me/src/proj", Some("/home/me")), "~/s/proj");
    assert_eq!(shorten_path("/usr/local/share/doc", None), "/u/l/s/doc");
    assert_eq!(shorten_path("/etc/nginx", None), "/etc/nginx");
}

#[test]
fn ellipsis() {
    assert_eq!(truncate_with_ellipsis("hello", 10), "hello");
    assert_eq!(truncate_with_ellipsis("hello world", 6), "hello…");
    assert_eq!(truncate_with_ellipsis("hello", 3), "…");
}

#[test]
fn startup_command_waits_for_prompt() {
    let mut s = StartupCmdState::new(Some("ls"), 1000);
    assert!(s.is_pending());
    assert_eq!(s.check_deadline(999), None);
    assert_eq!(s.on_prompt_ready(), Some(b"ls\n".to_vec()));
    assert!(!s.is_pending());
    assert_eq!(s.on_prompt_ready(), None);
    let mut late = StartupCmdState::new(Some("top"), 50);
    assert_eq!(late.check_deadline(50), Some(b"top\n".to_vec()));
    let mut idle = StartupCmdState::new(None, 0);
    assert_eq!(idle.check_deadline(10), None);
}

#[test]
fn pane_access_and_titles() {
    let mut m: TabManager<String> = TabManager::new("/bin/sh", "first".to_string());
    assert!(m.can_open_tab());
    m.new_tab("second".to_string());
    m.pane_mut(1, 0).push_str("-edited");
    assert_eq!(m.tabs()[1].panes[0].1, "second-edited");
    assert_eq!(m.tabs()[0].panes[0].1, "first");
    m.update_tab_title(0, "vim");
    m.update_tab_title(1, "");
    assert_eq!(m.tabs()[0].title, "vim");
    assert_eq!(m.tabs()[1].title, "shell");
    let id = m.tabs()[1].id;
    m.set_tab_title(id, "logs".to_string());
    assert_eq!(m.tabs()[1].title, "logs");
    assert_eq!(m.tabs()[0].title, "vim");
    assert_eq!(m.tab_entries().len(), 2);
}

#[test]
fn removing_a_fresh_split_restores_the_layout() {
    let mut tree = SplitNode::leaf(PaneId(1));
    tree.split(SplitDirection::Horizontal, PaneId(2), true);
    assert!(tree.resize_pane(PaneId(1), 100));
    let before = tree.layout(0, 0, 200, 100);
    assert!(tree.split_pane(PaneId(2), SplitDirection::Vertical, PaneId(3), false));
    assert_eq!(tree.all_panes(), vec![PaneId(1), PaneId(3), PaneId(2)]);
    assert_eq!(tree.remove(PaneId(3)), Some(PaneId(2)));
    assert_eq!(tree.layout(0, 0, 200, 100), before);
    assert_eq!(tree.all_panes(), vec![PaneId(1), PaneId(2)]);
}

#[test]
fn exited_panes_are_closed() {
    let mut m: TabManager<u8> = TabManager::new("/bin/sh", 10);
    let first = m.active_tab_id();
    let p = m.split(SplitDirection::Horizontal, 11).unwrap();
    let second = m.new_tab(20);
    assert!(!m.remove_exited(&vec![]));
    // One of two panes exits: it is closed; a tab's last pane stays.
    assert!(m.remove_exited(&vec![(first, p), (second, PaneId(0))]));
    assert_eq!(m.tab_count(), 2);
    assert_eq!(m.active_tab_id(), second);
    m.switch_to(first);
    assert_eq!(m.focused_pane(), Some(&10));
    assert!(!m.focus_pane(p));
    assert_eq!(m.find_pane_tab(PaneId(0)), Some(first));
}
