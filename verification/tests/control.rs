use wsclient::config::AppConfig;
use wsclient::control::ViewControl;
use wsclient::fixed::FP_ONE;
use wsclient::geom::LayoutRect;
use wsclient::input::InputEvent;
use wsclient::input::KeyAction;
use wsclient::interaction::SyncOperation;
use wsclient::message::CaseMeta;
use wsclient::pane::Pane;
use wsclient::schedule::Schedule;
use wsclient::view::SampleMeta;
use wsclient::view::View;
use wsclient::view_state::ViewState;

fn test_config(n_views: usize) -> AppConfig {
    AppConfig::new(
        "ws://localhost:7979".to_owned(),
        (512, 512),
        None,
        None,
        10,
        true,
        "default".to_owned(),
        false,
        100,
        false,
        false,
        false,
        false,
        200,
        n_views,
        "default".to_owned(),
    )
}

fn test_view() -> View {
    View::new(
        0,
        LayoutRect { x: 0, y: 0, width: 100, height: 100 },
        10,
        false,
        "default".to_owned(),
        false,
        100,
        true,
        Schedule::Default,
    )
}

fn synced_pane(slot: usize, count: usize, frame: u32, synced: bool) -> Pane {
    let mut p = Pane::default();
    p.set_id((0, slot));
    p.set_case(Some(CaseMeta { key: "c".to_owned(), number_of_images: count }));
    let mut vs = ViewState::new();
    vs.set_frame(Some(frame));
    p.set_viewstate(vs);
    if synced {
        p.interaction.toggle_sync();
    }
    p
}

#[test]
fn sync_propagates_inverted_to_synchronized_siblings() {
    let mut a = synced_pane(0, 10, 5, true);
    let mut b = synced_pane(1, 10, 5, true);
    let mut c = synced_pane(2, 10, 5, false);

    // scroll A forward by 2 frames (the wheel convention negates)
    a.interaction.handle_mouse_wheel(-2 * FP_ONE);
    let op = a.update().expect("a synchronized frame change requests a sync op");
    assert_eq!(op, SyncOperation::Scroll(2));
    assert_eq!(a.interaction.viewstate.frame, Some(7));

    // B is synchronized and not the origin: exactly one inverted synthetic
    // wheel event brings it to the same frame.
    b.update_sync(&((0, 0), op));
    assert_eq!(b.interaction.viewstate.frame, Some(7));

    // C is not synchronized: no operation reaches it.
    c.update_sync(&((0, 0), op));
    assert_eq!(c.interaction.viewstate.frame, Some(5));

    // the origin pane itself does not re-apply its own operation
    a.update_sync(&((0, 0), op));
    assert_eq!(a.interaction.viewstate.frame, Some(7));
}

#[test]
fn accept_sample_gates_by_area_tolerance() {
    let mut v = test_view();
    // expected area: (100 * 100) * 1.0^2 = 10000; the size filter is only
    // armed while the view expects a resolution change.
    v.invalidate();
    // 5% off: within the tolerance
    assert!(v.push_sample(SampleMeta { width: 95, height: 100 }));
    // once a good frame arrived, the filter is disarmed again
    assert!(v.push_sample(SampleMeta { width: 10, height: 10 }));
    // 11% off while armed: outside the tolerance
    v.invalidate();
    assert!(!v.push_sample(SampleMeta { width: 89, height: 100 }));
    // exactly 10% off is still out of the (strict) tolerance
    assert!(!v.push_sample(SampleMeta { width: 90, height: 100 }));
    assert!(v.push_sample(SampleMeta { width: 91, height: 100 }));
}

#[test]
fn push_state_sequence_is_gap_free() {
    let mut v = test_view();
    v.invalidate();
    let s1 = v.push_state().expect("dirty view pushes");
    v.invalidate();
    let s2 = v.push_state().expect("dirty view pushes");
    assert_eq!(s1.seq, 0);
    assert_eq!(s2.seq, 1);
    // 100x100 lies below the smallest breakpoint: 2.0 MB/s scaled by the
    // area ratio 10000/76800, in thousandths.
    assert_eq!(s1.bitrate, 260);
    assert_eq!(s1.scaling, 100);
    // the view-level dirty flag holds until a size-compatible frame
    // arrives; then, with every pane clean, there is nothing to push
    assert!(v.push_state().is_some());
    assert!(v.push_sample(SampleMeta { width: 100, height: 100 }));
    assert!(v.push_state().is_none());
}

#[test]
fn datachannel_binds_by_label_once() {
    let mut v = test_view();
    assert!(!v.set_datachannel(&"video1-data".to_owned()));
    assert!(v.set_datachannel(&"video0-data".to_owned()));
    // a second channel for the same view is rejected
    assert!(!v.set_datachannel(&"video0-data".to_owned()));
}

#[test]
fn client_config_carries_the_slot_identity() {
    let v = test_view();
    let cfg = v.get_client_config();
    assert_eq!(cfg.id, "NativeClient_0");
    assert_eq!(cfg.viewport.width, 100);
    assert_eq!(cfg.viewport.height, 100);
    assert_eq!(cfg.bitrate, 260);
    assert_eq!(cfg.video_scaling, 100);
}

#[test]
fn lossless_overrides_bitrate() {
    let mut v = test_view();
    v.lossless = true;
    assert_eq!(v.get_bitrate(), 0);
}

#[test]
fn tiny_views_never_hit_the_lossless_sentinel() {
    // a 4x4 view extrapolates to a rate that truncates to zero; the
    // non-lossless rate is floored at one thousandth instead
    let mut v = test_view();
    v.set_layout(LayoutRect { x: 0, y: 0, width: 4, height: 4 });
    assert_eq!(v.get_bitrate(), 1);
}

#[test]
fn bitrate_scale_clamps_to_one_tenth() {
    let mut v = test_view();
    v.bitrate_scale = 0;
    v.adjust_bitrate_scaling(0);
    assert_eq!(v.bitrate_scale, 1);
    v.adjust_bitrate_scaling(-5);
    assert_eq!(v.bitrate_scale, 1);
    v.adjust_bitrate_scaling(3);
    assert_eq!(v.bitrate_scale, 4);
}

#[test]
fn partition_policy_matches_precedence() {
    // 4 views, 2x2 panes: each pane gets its own view.
    let mut vc = ViewControl::new(&test_config(4));
    vc.set_layout(LayoutRect { x: 0, y: 0, width: 512, height: 512 });
    vc.partition(2, 2);
    assert_eq!(vc.active, vec![0, 1, 2, 3]);
    for i in 0..4 {
        assert_eq!(vc.views[i].panes.len(), 1);
    }
    // 3 rows x 2 columns over 4 views: each row gets its own view.
    vc.partition(3, 2);
    assert_eq!(vc.active, vec![0, 1, 2]);
    for i in 0..3 {
        assert_eq!(vc.views[i].panes.len(), 2);
    }
    // 5 rows over 4 views: a single composited view carries the whole grid.
    vc.partition(5, 2);
    assert_eq!(vc.active, vec![0]);
    assert_eq!(vc.views[0].panes.len(), 10);
}

#[test]
fn park_and_restore_round_trip() {
    let mut vc = ViewControl::new(&test_config(4));
    vc.set_layout(LayoutRect { x: 0, y: 0, width: 512, height: 512 });
    vc.partition(2, 2);
    vc.set_case_meta(
        None,
        vec![
            CaseMeta { key: "first".to_owned(), number_of_images: 10 },
            CaseMeta { key: "second".to_owned(), number_of_images: 20 },
        ],
    );
    vc.select_default_case();
    // focus the first view's pane and scroll it to frame 3
    assert!(vc.handle_window_event(&InputEvent::CursorMoved { x: 10, y: 10 }));
    vc.handle_window_event(&InputEvent::MouseWheel { delta: -3 * FP_ONE });
    vc.update_focused();
    assert_eq!(vc.views[0].panes[0].interaction.viewstate.frame, Some(3));

    let before: Vec<(Option<String>, ViewState)> = (0..4)
        .map(|i| {
            let p = &vc.views[i].panes[0];
            (p.case.as_ref().map(|c| c.key.clone()), p.interaction.viewstate)
        })
        .collect();
    let partition_before = vc.partition;

    // park: collapse to a single pane per view, showing the focused state
    vc.toggle_1x1();
    assert_eq!(vc.partition, (1, 1));
    for i in vc.active.clone() {
        assert_eq!(vc.views[i].panes[0].interaction.viewstate.frame, Some(3));
        assert_eq!(
            vc.views[i].panes[0].case.as_ref().map(|c| c.key.clone()),
            Some("first".to_owned())
        );
    }

    // restore: the prior partition and every pane's (case, state) come back
    vc.toggle_1x1();
    assert_eq!(vc.partition, partition_before);
    let after: Vec<(Option<String>, ViewState)> = (0..4)
        .map(|i| {
            let p = &vc.views[i].panes[0];
            (p.case.as_ref().map(|c| c.key.clone()), p.interaction.viewstate)
        })
        .collect();
    assert_eq!(before, after);
    // the snapshot is consumed: with focus regained, a third toggle parks
    // afresh rather than restoring
    assert!(vc.handle_window_event(&InputEvent::CursorMoved { x: 10, y: 10 }));
    vc.toggle_1x1();
    assert_eq!(vc.partition, (1, 1));
}

#[test]
fn case_cycling_wraps_both_directions() {
    let mut vc = ViewControl::new(&test_config(1));
    vc.set_layout(LayoutRect { x: 0, y: 0, width: 512, height: 512 });
    vc.set_case_meta(
        None,
        vec![
            CaseMeta { key: "a".to_owned(), number_of_images: 1 },
            CaseMeta { key: "b".to_owned(), number_of_images: 2 },
            CaseMeta { key: "c".to_owned(), number_of_images: 3 },
        ],
    );
    assert!(vc.handle_window_event(&InputEvent::CursorMoved { x: 10, y: 10 }));
    // no current case: cycling starts at the first entry
    vc.handle_window_event(&InputEvent::Key(KeyAction::NextCase));
    let key = |vc: &ViewControl| {
        vc.views[0].panes[0].case.as_ref().map(|c| c.key.clone()).unwrap()
    };
    assert_eq!(key(&vc), "a");
    vc.handle_window_event(&InputEvent::Key(KeyAction::NextCase));
    assert_eq!(key(&vc), "b");
    // wrapping backwards from "b" through "a" to "c"
    vc.handle_window_event(&InputEvent::Key(KeyAction::PreviousCase));
    assert_eq!(key(&vc), "a");
    vc.handle_window_event(&InputEvent::Key(KeyAction::PreviousCase));
    assert_eq!(key(&vc), "c");
    vc.handle_window_event(&InputEvent::Key(KeyAction::NextCase));
    assert_eq!(key(&vc), "a");
}

#[test]
fn catalog_strings_join_keys() {
    let mut vc = ViewControl::new(&test_config(1));
    assert_eq!(vc.get_case_string(), "<No cases loaded>");
    assert_eq!(vc.get_protocol_string(), "<No protocols loaded>");
    vc.set_case_meta(
        None,
        vec![
            CaseMeta { key: "a".to_owned(), number_of_images: 1 },
            CaseMeta { key: "b".to_owned(), number_of_images: 2 },
        ],
    );
    assert_eq!(vc.get_case_string(), "a\nb");
}

#[test]
fn set_active_filters_and_dedups() {
    let mut vc = ViewControl::new(&test_config(3));
    vc.set_active(&vec![2, 0, 2, 9]);
    assert_eq!(vc.active, vec![2, 0]);
}

#[test]
fn samples_route_by_view_slot() {
    let mut vc = ViewControl::new(&test_config(2));
    // the fresh views are not dirty, so the size filter is not armed
    assert!(vc.push_sample(1, SampleMeta { width: 16, height: 16 }));
    assert_eq!(vc.views[1].current_sample, Some(SampleMeta { width: 16, height: 16 }));
    assert_eq!(vc.views[0].current_sample, None);
    // an unknown slot is ignored
    assert!(!vc.push_sample(7, SampleMeta { width: 16, height: 16 }));
}
