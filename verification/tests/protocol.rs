use wsclient::config::AppConfig;
use wsclient::control::ViewControl;
use wsclient::geom::LayoutRect;
use wsclient::geom::ViewportSize;
use wsclient::input::InputEvent;
use wsclient::message::CaseMeta;
use wsclient::message::ClientConfig;
use wsclient::message::LayoutCfg;
use wsclient::message::PaneCfg;
use wsclient::message::Protocols;
use wsclient::message::RenderState;
use wsclient::schedule::Schedule;
use wsclient::view_state::Position;
use wsclient::view_state::ViewState;
use wsclient::view_state::Zoom;
use wsclient::fixed::FP_ONE;

fn config(n_views: usize, schedule: &str) -> AppConfig {
    AppConfig::new(
        "ws://localhost:7979".to_owned(),
        (512, 512),
        None,
        None,
        10,
        true,
        "default".to_owned(),
        false,
        100,
        false,
        false,
        false,
        false,
        200,
        n_views,
        schedule.to_owned(),
    )
}

fn catalog() -> (Option<Protocols>, Vec<CaseMeta>) {
    let protocols = Protocols {
        layout: vec![
            LayoutCfg {
                name: "quad".to_owned(),
                rows: 2,
                columns: 2,
                panes: vec![
                    PaneCfg { case: "b".to_owned() },
                    PaneCfg { case: "a".to_owned() },
                    PaneCfg { case: "b".to_owned() },
                    PaneCfg { case: "missing".to_owned() },
                ],
            },
            LayoutCfg {
                name: "single".to_owned(),
                rows: 1,
                columns: 1,
                panes: vec![PaneCfg { case: "a".to_owned() }],
            },
        ],
    };
    let cases = vec![
        CaseMeta { key: "a".to_owned(), number_of_images: 10 },
        CaseMeta { key: "b".to_owned(), number_of_images: 20 },
    ];
    (Some(protocols), cases)
}

fn pane_key(vc: &ViewControl, view: usize) -> Option<String> {
    vc.views[view].panes[0].case.as_ref().map(|c| c.key.clone())
}

#[test]
fn protocol_partitions_and_assigns_cases_in_slot_order() {
    let mut vc = ViewControl::new(&config(4, "default"));
    vc.set_layout(LayoutRect { x: 0, y: 0, width: 512, height: 512 });
    let (protocols, cases) = catalog();
    vc.set_case_meta(protocols, cases);
    vc.select_protocol_from_key(&"quad".to_owned());
    assert_eq!(vc.partition, (2, 2));
    assert_eq!(vc.active, vec![0, 1, 2, 3]);
    assert_eq!(pane_key(&vc, 0), Some("b".to_owned()));
    assert_eq!(pane_key(&vc, 1), Some("a".to_owned()));
    assert_eq!(pane_key(&vc, 2), Some("b".to_owned()));
    // an unmatched case key yields an empty pane
    assert_eq!(pane_key(&vc, 3), None);
    // the case's frame-count bound came along
    assert_eq!(vc.views[1].panes[0].interaction.image_count, Some(10));
}

#[test]
fn protocol_cycling_wraps_the_catalog() {
    let mut vc = ViewControl::new(&config(4, "default"));
    vc.set_layout(LayoutRect { x: 0, y: 0, width: 512, height: 512 });
    let (protocols, cases) = catalog();
    vc.set_case_meta(protocols, cases);
    vc.select_protocol_from_key(&"quad".to_owned());
    // forward: the next template in the catalog
    vc.handle_window_event(&InputEvent::Key(
        wsclient::input::KeyAction::NextProtocol,
    ));
    assert_eq!(vc.partition, (1, 1));
    assert_eq!(pane_key(&vc, 0), Some("a".to_owned()));
    // forward again wraps back to the first
    vc.select_next_protocol();
    assert_eq!(vc.partition, (2, 2));
    // backward from the first wraps to the last
    vc.select_previous_protocol();
    assert_eq!(vc.partition, (1, 1));
}

#[test]
fn unknown_protocol_changes_nothing() {
    let mut vc = ViewControl::new(&config(2, "default"));
    vc.set_layout(LayoutRect { x: 0, y: 0, width: 512, height: 512 });
    let (protocols, cases) = catalog();
    vc.set_case_meta(protocols, cases);
    let partition_before = vc.partition;
    vc.select_protocol_from_key(&"nonexistent".to_owned());
    assert_eq!(vc.partition, partition_before);
    assert_eq!(vc.current_protocol_key, None);
}

#[test]
fn schedule_parses_from_its_name() {
    assert_eq!(config(1, "performance").schedule, Schedule::Performance);
    assert_eq!(config(1, "quality").schedule, Schedule::Quality);
    assert_eq!(config(1, "default").schedule, Schedule::Default);
    assert_eq!(config(1, "anything-else").schedule, Schedule::Default);
}

#[test]
fn view_state_for_pointer_is_absolute_pixel() {
    assert!(ViewState::for_pointer(None).is_none());
    let vs = ViewState::for_pointer(Some((12, 34))).unwrap();
    assert_eq!(vs.zoom, Zoom::Pixel(FP_ONE));
    assert_eq!(vs.pos, Position::Absolute((12, 34)));
    assert_eq!(vs.frame, None);
}

#[test]
fn view_state_scale_touches_pixel_zoom_and_position_only() {
    let mut vs = ViewState::new();
    vs.set_zoom_mode(Zoom::Pixel(2 * FP_ONE));
    vs.set_position((4 * FP_ONE, 6 * FP_ONE));
    let half = vs.scale(FP_ONE / 2);
    assert_eq!(half.zoom, Zoom::Pixel(FP_ONE));
    assert_eq!(half.pos, Position::Relative((2 * FP_ONE, 3 * FP_ONE)));
    assert_eq!(half.wl, vs.wl);
    assert_eq!(half.cursor, None);
    // fit zoom is already viewport-relative and does not scale
    let mut fit = ViewState::new();
    fit.set_zoom_mode(Zoom::Fit(2 * FP_ONE));
    assert_eq!(fit.scale(FP_ONE / 2).zoom, Zoom::Fit(2 * FP_ONE));
}

#[test]
fn wire_defaults_match_the_peer_expectations() {
    let c = ClientConfig::default();
    assert_eq!(c.id, "foo");
    assert_eq!(c.viewport, ViewportSize { width: 64, height: 64 });
    assert_eq!(c.bitrate, 4000);
    assert_eq!(c.preset, "default");
    let r = RenderState::default();
    assert_eq!(r.panes.len(), 1);
    assert_eq!(r.seq, 0);
    let r = RenderState::with_seq(7);
    assert_eq!(r.seq, 7);
}
