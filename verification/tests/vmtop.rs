use tikovm::vmm::state::VmState;
use tikovm::vmm::vm::VmMode;
use tikovm::vmtop::app::{self, App, Error, FilterMode, Key, Snapshot};
use tikovm::vmtop::format::{ago, disk_mib, duration, memory_mib, uptime};
use tikovm::vmtop::listing::{RowId, SortOrder};
use tikovm::vmtop::model::{
    state_text, AutoSuspendConfig, ExposedPort, NetworkConfig, Vm, VmConfig, VmNet,
};
use tikovm::vmtop::ui;
use tikovm::vmtop::view::VmView;

const SECOND: i64 = 1_000_000_000;

fn vm(id: &str, project: u64, name: &str, state: VmState) -> Vm {
    Vm {
        vm_id: id.to_string(),
        state,
        net: None,
        snapshot: None,
        created_at: 0,
        vm_config: VmConfig {
            name: name.to_string(),
            project_id: project,
            mode: VmMode::Ephemeral,
            image: "ubuntu-24".to_string(),
            cpus: 1,
            memory_mb: 512,
            disk_size_mb: 1024,
            tags: vec![],
            network_config: NetworkConfig::default(),
            auto_suspend: None,
            block_storage: None,
        },
    }
}

#[test]
fn memory_labels() {
    assert_eq!(memory_mib(512), "512M");
    assert_eq!(memory_mib(1023), "1023M");
    assert_eq!(memory_mib(1024), "1.0G");
    assert_eq!(memory_mib(2560), "2.5G");
}

#[test]
fn durations_terse() {
    assert_eq!(duration(0), "0s");
    assert_eq!(duration(5), "5s");
    assert_eq!(duration(59), "59s");
    assert_eq!(duration(60), "1m");
    assert_eq!(duration(90), "1m");
    assert_eq!(duration(3599), "59m");
    assert_eq!(duration(3600), "1h00m");
    assert_eq!(duration(3661), "1h01m");
    assert_eq!(duration(86_400), "1d0h");
    assert_eq!(duration(172_800 + 3_600 + 120), "2d1h");
    assert_eq!(duration(-10), "0s");
}

#[test]
fn gib_labels_are_rounded_to_even_tenths() {
    // As the shortest decimal nearest to the quotient.
    for mib in [1024u64, 1075, 1076, 1126, 1280, 1331, 1332, 1536, 1587, 123_456] {
        assert_eq!(memory_mib(mib), format!("{:.1}G", mib as f64 / 1024.0), "{mib}");
    }
    assert_eq!(disk_mib(2048), memory_mib(2048));
}

#[test]
fn times_are_relative() {
    assert_eq!(uptime(90 * SECOND, 0), "1m");
    assert!(ago(5 * SECOND, 0).starts_with("5s"));
}

#[test]
fn all_state_variants_print() {
    let all = [
        (VmState::Creating, "creating"),
        (VmState::Starting, "starting"),
        (VmState::Pausing, "pausing"),
        (VmState::Resuming, "resuming"),
        (VmState::Suspending, "suspending"),
        (VmState::Restoring, "restoring"),
        (VmState::Destroying, "destroying"),
        (VmState::Created, "created"),
        (VmState::Started, "started"),
        (VmState::Paused, "paused"),
        (VmState::Suspended, "suspended"),
        (VmState::Destroyed, "destroyed"),
    ];
    for (state, text) in all {
        assert_eq!(state_text(state), text);
    }
}

/// The VM that a list response of the API describes.
fn web() -> Vm {
    let mut vm = vm("vm-123-a1b2c3", 123, "web", VmState::Started);
    vm.net = Some(VmNet {
        tap_name: "tap-123-a1b2c3".to_string(),
        guest_ip: "172.16.115.2".to_string(),
        gateway_ip: "172.16.115.1".to_string(),
        subnet: "172.16.115.0/24".to_string(),
    });
    vm.vm_config.mode = VmMode::Permanent;
    vm.vm_config.cpus = 2;
    vm.vm_config.network_config = NetworkConfig { exposed_ports: vec![ExposedPort { port: 8080 }] };
    vm.vm_config.tags = vec!["prod".to_string(), "api".to_string()];
    vm.vm_config.auto_suspend = Some(AutoSuspendConfig { idle_timeout_secs: 300 });
    vm
}

#[test]
fn filter_matches_substrings() {
    let vm = &web();
    assert!(vm.matches("web"));
    assert!(vm.matches("172.16.115.2"));
    assert!(vm.matches("PROD"));
    assert!(vm.matches("vm-123"));
    assert!(!vm.matches("nope"));
}

#[test]
fn vms_know_their_address_and_ports() {
    let vm = web();
    assert_eq!(vm.guest_ip().unwrap(), "172.16.115.2");
    assert_eq!(vm.exposed_port_count(), 1);
}

#[test]
fn groups_by_project_ordered() {
    let mut view = VmView::default();
    view.update(vec![
        vm("a1", 10, "z", VmState::Suspended),
        vm("b1", 1, "a", VmState::Started),
        vm("c1", 10, "a", VmState::Started),
        vm("d1", 7, "m", VmState::Paused),
    ]);
    assert_eq!(view.groups.len(), 3);
    assert_eq!(view.groups[0].project_id, 1);
    assert_eq!(view.groups[1].project_id, 7);
    assert_eq!(view.groups[2].project_id, 10);
    // Within project 10, started sorts above suspended; ties resolve by name.
    let p10: Vec<&Vm> = (0..view.visible_count())
        .map(|i| view.vm(i))
        .filter(|v| v.vm_config.project_id == 10)
        .collect();
    assert_eq!(p10[0].vm_id, "c1");
    assert_eq!(p10[1].vm_id, "a1");
}

#[test]
fn flat_mode_has_no_headers() {
    let mut view = VmView::new(false, SortOrder::State);
    view.update(vec![
        vm("a", 1, "b", VmState::Started),
        vm("b", 2, "a", VmState::Paused),
    ]);
    assert_eq!(view.rows.len(), 2);
    assert!(view.rows.iter().all(|r| matches!(r, RowId::Vm(_))));
}

#[test]
fn host_counts_are_correct() {
    let mut view = VmView::default();
    view.update(vec![
        vm("a", 1, "a", VmState::Started),
        vm("b", 1, "b", VmState::Started),
        vm("c", 1, "c", VmState::Suspended),
        vm("d", 1, "d", VmState::Destroyed),
    ]);
    let h = view.host_counts();
    assert_eq!((h.total, h.started, h.suspended, h.destroyed), (4, 2, 1, 1));
    assert!(view.allocation_fits());
    assert_eq!(view.host_alloc(), (4, 2048));
    assert_eq!(view.host_projects(), 1);
}

#[test]
fn selection_skips_headers_and_repins_on_update() {
    let mut view = VmView::default();
    view.update(vec![
        vm("p1v1", 1, "a", VmState::Started),
        vm("p1v2", 1, "b", VmState::Started),
        vm("p2v1", 2, "c", VmState::Started),
    ]);
    view.jump_first();
    assert_eq!(view.selected_vm().unwrap().vm_id, "p1v1");
    view.move_selected(1);
    assert_eq!(view.selected_vm().unwrap().vm_id, "p1v2");
    // The next jumps across the header of project 2.
    view.move_selected(1);
    assert_eq!(view.selected_vm().unwrap().vm_id, "p2v1");
    view.move_selected(1); // clamped at last
    assert_eq!(view.selected_vm().unwrap().vm_id, "p2v1");
    // Refresh keeps the selection on the same id even after reordering.
    view.update(vec![
        vm("p1v2", 1, "b", VmState::Paused),
        vm("p2v1", 2, "c", VmState::Started),
    ]);
    assert_eq!(view.selected_vm().unwrap().vm_id, "p2v1");
}

#[test]
fn refresh_follows_the_vm_selected_by_default() {
    let mut view = VmView::new(false, SortOrder::Name);
    view.update(vec![vm("b", 1, "b", VmState::Started)]);
    assert_eq!(view.selected_vm().unwrap().vm_id, "b");
    view.update(vec![
        vm("a", 1, "a", VmState::Started),
        vm("b", 1, "b", VmState::Started),
    ]);
    assert_eq!(view.selected_vm().unwrap().vm_id, "b");
    // A filter that hides everything does not lose the selection.
    view.set_filter("nothing like it");
    assert!(view.selected_vm().is_none());
    view.clear_filter();
    assert_eq!(view.selected_vm().unwrap().vm_id, "b");
    // A VM that is gone is followed by the nearest one.
    view.update(vec![vm("a", 1, "a", VmState::Started)]);
    assert_eq!(view.selected_vm().unwrap().vm_id, "a");
}

#[test]
fn clearing_a_filter_restores_the_selection() {
    let mut view = VmView::new(false, SortOrder::Name);
    view.update(vec![
        vm("vm-1", 1, "alpha", VmState::Started),
        vm("vm-2", 1, "bravo", VmState::Started),
    ]);
    view.jump_last();
    assert_eq!(view.selected_vm().unwrap().vm_id, "vm-2");
    // Another VM stands in while the selected one is hidden.
    view.set_filter("alpha");
    assert_eq!(view.selected_vm().unwrap().vm_id, "vm-1");
    view.clear_filter();
    assert_eq!(view.selected_vm().unwrap().vm_id, "vm-2");
    // A move while it is hidden selects for good.
    view.set_filter("alpha");
    view.move_selected(1);
    view.clear_filter();
    assert_eq!(view.selected_vm().unwrap().vm_id, "vm-1");
}

#[test]
fn flat_rows_lead_with_the_project() {
    let row: Vec<String> =
        ui::vm_row(&vm("vm-1-abcdef", 42, "n", VmState::Started), 0, true, 200, false)
            .into_iter()
            .map(|s| s.text)
            .collect();
    assert_eq!(row.len(), 3);
    assert_eq!(row[0], "started   ");
    assert_eq!(row[1], "42     ");
    assert!(row[2].starts_with("42      vm-1-abcdef"), "{:?}", row[2]);
    let grouped = ui::vm_row(&vm("vm-1-abcdef", 42, "n", VmState::Started), 0, false, 200, false);
    assert_eq!(grouped.len(), 2);
    assert!(grouped[1].text.starts_with("vm-1-abcdef"));
}

#[test]
fn long_names_keep_their_end() {
    assert_eq!(ui::cut_tail("vm-1-abcdef", 6), "..cdef");
    assert_eq!(ui::cut_tail("vm-1-abcdef", 4), "..ef");
    assert_eq!(ui::cut_tail("vm-1-abcdef", 3), "def");
    assert_eq!(ui::cut_tail("vm-1-abcdef", 0), "");
    assert_eq!(ui::cut_tail("abc", 3), "abc");
}

#[test]
fn filter_hides_rows_and_sections() {
    let mut view = VmView::default();
    view.update(vec![
        vm("p1", 1, "web", VmState::Started),
        vm("p2", 2, "db", VmState::Started),
    ]);
    assert_eq!(view.visible_count(), 2);
    view.set_filter("web");
    assert_eq!(view.visible_count(), 1);
    assert_eq!(view.groups.len(), 1);
    assert_eq!(view.groups[0].project_id, 1);
    view.clear_filter();
    assert_eq!(view.visible_count(), 2);
}

#[test]
fn name_order_ignores_states() {
    let mut view = VmView::new(false, SortOrder::Name);
    view.update(vec![
        vm("a", 1, "z", VmState::Started),
        vm("b", 1, "a", VmState::Destroyed),
    ]);
    assert_eq!(view.vm(0).vm_id, "b");
    view.set_sort(SortOrder::State);
    assert_eq!(view.vm(0).vm_id, "a");
    view.toggle_grouped();
    assert_eq!(view.rows.len(), 3);
    view.jump_last();
    assert_eq!(view.selected_vm().unwrap().vm_id, "b");
    view.page_selected(-1);
    assert_eq!(view.selected_vm().unwrap().vm_id, "a");
}

// --- the terminal -----------------------------------------------------------

#[test]
fn columns_have_their_width() {
    assert_eq!(ui::pad("ab", 4), "ab  ");
    assert_eq!(ui::col("abcdef", 4).chars().count(), 4);
    assert_eq!(ui::col("ab", 4), "ab  ");
    assert_eq!(ui::clip("abc", 2).chars().count(), 2);
}

#[test]
fn the_selected_line_stays_in_sight() {
    assert_eq!(ui::scroll_top(5, Some(4), 10), 0);
    let top = ui::scroll_top(100, Some(50), 10);
    assert!(top <= 50 && 50 < top + 10);
}

#[test]
fn every_row_is_drawn() {
    let mut view = VmView::default();
    view.update(vec![web(), vm("x", 1, "y", VmState::Paused)]);
    let (lines, selected) = ui::body_lines(&view, 90 * SECOND, 200, "");
    assert!(lines.len() >= view.rows.len());
    assert!(selected.is_some());
    let all: String = lines.iter().flatten().map(|s| s.text.as_str()).collect();
    assert!(all.contains("web") && all.contains("172.16.115.2"));
    let summary: String =
        ui::summary_line(&view, "1s").iter().map(|s| s.text.as_str()).collect();
    assert!(summary.contains('2'));
}

#[test]
fn keys_drive_the_view() {
    let mut a = App::new(true, SortOrder::State);
    a.refresh(vec![web(), vm("x", 1, "y", VmState::Paused)]);
    assert!(a.on_key(Key::Char('r'), false));
    assert!(!a.on_key(Key::Char('/'), false));
    assert_eq!(a.mode, FilterMode::Filtering);
    for c in "web".chars() {
        a.on_key(Key::Char(c), false);
    }
    assert_eq!(a.filter, "web");
    assert_eq!(a.view.visible_count(), 1);
    a.on_key(Key::Enter, false);
    assert_eq!(a.mode, FilterMode::Normal);
    a.on_key(Key::Char('f'), false);
    assert!(!a.view.grouped);
    a.on_key(Key::Char('q'), false);
    assert!(a.quit);
    let mut b = App::new(true, SortOrder::State);
    b.on_key(Key::Char('c'), true);
    assert!(b.quit);
}

#[test]
fn failed_polls_keep_the_last_list() {
    let mut s = Snapshot::fresh();
    assert!(!s.connected());
    s.polled(1, Ok(vec![web()]));
    assert!(s.connected());
    s.polled(2, Err("refused".to_string()));
    assert!(!s.connected());
    assert_eq!(s.vms.as_ref().unwrap().len(), 1);
    assert_eq!((s.last_ok, s.last_attempt), (Some(1), Some(2)));
    assert_eq!(s.error.as_deref(), Some("refused"));
}

#[test]
fn addresses_are_joined() {
    assert_eq!(app::trim_slashes("http://h:1//"), "http://h:1");
    assert_eq!(app::api_url("http://h:1/", "/api/vms"), "http://h:1/api/vms");
    assert_eq!(app::host_disp("http://h:1/"), "h:1");
    assert_eq!(
        app::choose_token(Some("a".to_string()), Some("b".to_string())).as_deref(),
        Some("a")
    );
    assert_eq!(app::choose_token(None, Some("b".to_string())).as_deref(), Some("b"));
    assert_eq!(app::choose_token(None, None), None);
    let e = Error::Http { status: 401, body: "no".to_string() };
    assert!(e.message().contains("401"));
}
