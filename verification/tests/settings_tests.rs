use stunlock::settings::prefix_or_default;
use stunlock::settings::toggle_global;
use stunlock::settings::ChannelOp;
use stunlock::settings::ChannelWhitelist;
use stunlock::settings::Setting;

#[test]
fn toggling_adds_then_removes_a_channel() {
    let mut w = ChannelWhitelist::new();
    assert!(!w.contains(5));
    let (setting, op) = w.toggle(5);
    assert_eq!(setting, Setting::AddedChannel);
    assert_eq!(op, ChannelOp::InsertChannel { channel_id: 5 });
    assert!(w.contains(5));
    let (setting, op) = w.toggle(5);
    assert_eq!(setting, Setting::RemovedChannel);
    assert_eq!(op, ChannelOp::DeleteChannel { channel_id: 5 });
    assert!(!w.contains(5));
}

#[test]
fn whitelist_lists_channels_in_insertion_order() {
    let mut w = ChannelWhitelist::new();
    w.toggle(3);
    w.toggle(1);
    w.toggle(2);
    assert_eq!(w.channels().as_slice(), &[3, 1, 2]);
}

#[test]
fn whitelist_rebuild_ignores_duplicate_rows() {
    let w = ChannelWhitelist::from_rows(&vec![4, 4, 5]);
    assert!(w.contains(4));
    assert!(w.contains(5));
    assert!(!w.contains(6));
    assert_eq!(w.channels().len(), 2);
}

#[test]
fn global_mode_toggles_back_and_forth() {
    assert_eq!(toggle_global(false), (true, Setting::EnabledGlobal));
    assert_eq!(toggle_global(true), (false, Setting::DisabledGlobal));
}

#[test]
fn prefix_falls_back_to_the_default() {
    let (p, insert) = prefix_or_default(None);
    assert_eq!(p, "9!");
    assert!(insert);
    let (p, insert) = prefix_or_default(Some("$$".to_string()));
    assert_eq!(p, "$$");
    assert!(!insert);
}
