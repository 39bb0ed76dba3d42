use controller::c6::display::{
    joy_dot_center, render, render_self_test, stabilize_knob, DrawOp, Paint, ViewModel,
};
use controller::c6::link::kept_len;
use controller::c6::post::{refresh, step};
use controller::c6::radio::{judge_watch, next_view, on_command, on_frame, run_watch_check, StateWatch};
use controller::c6::sdcard::{count_entry, try_mount, DummyTimeSource};
use controller::c6::self_test::{
    boot_decision, item_at, judge_codec, judge_heap, run_codec_check, run_heap_check, BootDecision,
    SelfTestItem, SelfTestReport, SelfTestStatus, ALL_ITEMS, ITEM_COUNT,
};
use controller::comm::receiver::{CommandOutcome, CommandSource};
use controller::protocol::{
    Command, CommandBody, Frame, GamepadState, KeyId, FRAME_LEN,
};

fn text_at(ops: &[DrawOp<String>], px: i32, py: i32) -> Option<(String, Paint)> {
    ops.iter().find_map(|op| match op {
        DrawOp::Text { x, y, text, paint, .. } if *x == px && *y == py => Some((text.clone(), *paint)),
        _ => None,
    })
}

fn vm() -> ViewModel {
    let mut v = ViewModel::empty();
    v.have_data = true;
    v.last_seq = 123;
    v.gap_count = 2;
    v.ok_count = 45;
    v.state = GamepadState { buttons: 0b10, joy_x: 1000, joy_y: -500, knob_1: 250, knob_2: 0 };
    v
}

#[test]
fn first_screen_draws_everything() {
    let ops = render(&vm(), None);
    assert_eq!(ops[0], DrawOp::Fill { x: 0, y: 0, w: 240, h: 240, paint: Paint::Background });
    assert_eq!(text_at(&ops, 4, 4), Some(("RECV".to_string(), Paint::Good)));
    assert_eq!(text_at(&ops, 50, 6), Some(("seq=123       ".to_string(), Paint::Foreground)));
    assert_eq!(text_at(&ops, 140, 6), Some(("gap=2   ".to_string(), Paint::Warn)));
    assert_eq!(text_at(&ops, 190, 6), Some(("ok=45   ".to_string(), Paint::Off)));
    assert_eq!(text_at(&ops, 96, 80), Some(("X: +1000".to_string(), Paint::Foreground)));
    assert_eq!(text_at(&ops, 96, 96), Some(("Y:  -500".to_string(), Paint::Foreground)));
    assert_eq!(text_at(&ops, 32, 180), Some(("250  ".to_string(), Paint::Off)));
    assert_eq!(
        text_at(&ops, 4, 228),
        Some(("id= -.  filt=0       rep=0     ".to_string(), Paint::Off))
    );
    assert!(ops.contains(&DrawOp::Fill { x: 33, y: 165, w: 44, h: 10, paint: Paint::Accent }));
    let lit = DrawOp::Block {
        x: 46,
        y: 28,
        w: 34,
        h: 32,
        fill: Paint::Good,
        stroke: Paint::Accent,
        stroke_width: 2,
    };
    assert!(ops.contains(&lit));
    assert_eq!(text_at(&ops, 55, 37), Some(("B2".to_string(), Paint::Background)));
}

#[test]
fn unchanged_screen_draws_nothing_and_changes_draw_their_part() {
    let old = vm();
    assert!(render(&old, Some(&old)).is_empty());
    let mut new = old;
    new.gap_count = 0;
    let ops = render(&new, Some(&old));
    assert_eq!(ops.len(), 1);
    assert_eq!(text_at(&ops, 140, 6), Some(("gap=0   ".to_string(), Paint::Off)));
    let mut new = old;
    new.receiver_id = 7;
    new.assigned = true;
    let ops = render(&new, Some(&old));
    assert_eq!(
        text_at(&ops, 4, 228),
        Some(("id= 7*  filt=0       rep=0     ".to_string(), Paint::Good))
    );
    let mut new = old;
    new.state.joy_x = 0;
    let ops = render(&new, Some(&old));
    assert_eq!(ops[0], DrawOp::Fill { x: 80, y: 126, w: 6, h: 6, paint: Paint::Background });
    assert_eq!(ops[3], DrawOp::Fill { x: 45, y: 126, w: 6, h: 6, paint: Paint::Accent });
}

#[test]
fn dot_stays_inside_its_square() {
    assert_eq!(joy_dot_center(8, 72, 0, 0), (48, 112));
    assert_eq!(joy_dot_center(8, 72, 1000, 1000), (83, 77));
    assert_eq!(joy_dot_center(8, 72, -32768, -32768), (13, 147));
    assert_eq!(joy_dot_center(8, 72, -28, 28), (48, 112));
}

#[test]
fn knob_noise_is_hidden_but_not_the_ends() {
    assert_eq!(stabilize_knob(500, 507), 500);
    assert_eq!(stabilize_knob(500, 508), 508);
    assert_eq!(stabilize_knob(500, 493), 500);
    assert_eq!(stabilize_knob(3, 0), 0);
    assert_eq!(stabilize_knob(998, 1000), 1000);
}

#[test]
fn lost_frames_are_counted() {
    let f = |seq: u32| Frame::with_dest(seq, GamepadState::empty(), 1);
    let v1 = next_view(None, 255, &f(10));
    assert_eq!((v1.ok_count, v1.gap_count, v1.assigned), (1, 0, false));
    let v2 = next_view(Some(v1), 3, &f(11));
    assert_eq!((v2.ok_count, v2.gap_count, v2.assigned, v2.receiver_id), (2, 0, true, 3));
    let v3 = next_view(Some(v2), 3, &f(13));
    assert_eq!((v3.ok_count, v3.gap_count), (3, 1));
    let v4 = next_view(Some(next_view(None, 3, &f(u32::MAX))), 3, &f(0));
    assert_eq!(v4.gap_count, 0);
    let nop = Command::with_key(1, KeyId::default(), CommandBody::Nop);
    assert_eq!(on_command(CommandSource::EspNow, &nop), CommandOutcome::NoReply);
}

#[test]
fn the_newest_view_is_kept() {
    let mut watch = StateWatch::new();
    assert_eq!(watch.latest(), None);
    assert_eq!(run_watch_check(&mut watch), SelfTestStatus::Passed);
    assert_eq!(judge_watch(false), SelfTestStatus::Fail("no slot"));
    let first = Frame::with_dest(4, GamepadState::empty(), 1);
    on_frame(CommandSource::EspNow, &first, 3, &mut watch);
    on_frame(CommandSource::EspNow, &Frame::with_dest(6, GamepadState::empty(), 1), 3, &mut watch);
    let vm = watch.latest().unwrap();
    assert_eq!((vm.ok_count, vm.gap_count, vm.last_seq, vm.receiver_id), (2, 1, 6, 3));
}

#[test]
fn self_test_screen_follows_the_report() {
    let mut report = SelfTestReport::new();
    let ops = refresh(&report);
    assert_eq!(text_at(&ops, 72, 8), Some(("SELF-TEST".to_string(), Paint::Accent)));
    assert_eq!(text_at(&ops, 8, 208), Some(("TESTING...".to_string(), Paint::Accent)));
    assert_eq!(text_at(&ops, 96, 40), Some(("[ .. ]".to_string(), Paint::Off)));
    let ops = step(&mut report, item_at(0), SelfTestStatus::Passed);
    assert_eq!(text_at(&ops, 96, 40), Some(("[ OK ]".to_string(), Paint::Good)));
    let ops = step(&mut report, item_at(1), SelfTestStatus::Fail("why"));
    assert_eq!(text_at(&ops, 96, 62), Some(("[FAIL]".to_string(), Paint::Warn)));
    assert_eq!(text_at(&ops, 160, 64), Some(("why".to_string(), Paint::Warn)));
    assert_eq!(text_at(&ops, 8, 208), Some(("FAILED - CHECK HW".to_string(), Paint::Warn)));
    let mut report = SelfTestReport::new();
    for item in ALL_ITEMS {
        report.mark(item, SelfTestStatus::Passed);
    }
    assert!(report.all_ok() && !report.any_fail());
    let ops = render_self_test(&report);
    assert_eq!(text_at(&ops, 8, 208), Some(("ALL OK".to_string(), Paint::Good)));
}

#[test]
fn only_critical_failures_stop_the_boot() {
    for i in 0..ITEM_COUNT {
        let mut report = SelfTestReport::new();
        report.mark(item_at(i), SelfTestStatus::Fail("x"));
        assert!(report.any_fail());
        assert_eq!(report.any_critical_fail(), item_at(i).is_critical());
        assert_eq!(
            matches!(boot_decision(&report), BootDecision::Halt),
            item_at(i).is_critical()
        );
        assert!(report.status_of(item_at(i)).is_fail());
    }
    assert!(!SelfTestItem::Sd.is_critical());
}

#[test]
fn checks_judge_what_they_measure() {
    assert_eq!(run_heap_check(), SelfTestStatus::Passed);
    assert!(judge_heap(0).is_fail());
    let frame = Frame::with_dest(1, GamepadState::empty(), 1);
    assert_eq!(judge_codec(&frame, Some(frame)), SelfTestStatus::Passed);
    assert!(judge_codec(&frame, None).is_fail());
    let other = Frame::with_dest(2, GamepadState::empty(), 1);
    assert!(judge_codec(&frame, Some(other)).is_fail());
    let broken = run_codec_check(|_| [0u8; FRAME_LEN], |_| None);
    assert!(broken.is_fail());
}

#[test]
fn cards_are_optional_and_counted() {
    let (status, info) = try_mount(Some(1 << 20), true, 3);
    assert_eq!(status, SelfTestStatus::Passed);
    let info = info.unwrap();
    assert_eq!((info.bytes, info.entries), (1 << 20, 3));
    assert!(try_mount(None, true, 3).0.is_fail());
    assert!(try_mount(Some(5), false, 3).0.is_fail());
    assert_eq!(count_entry(4), 5);
    assert_eq!(count_entry(u32::MAX), u32::MAX);
    let t = DummyTimeSource.timestamp();
    assert_eq!((t.year_since_1970, t.zero_indexed_month, t.zero_indexed_day), (54, 0, 0));
    assert_eq!(kept_len(300), 250);
    assert_eq!(kept_len(10), 10);
}

#[test]
fn asking_for_a_place_to_wait_takes_none() {
    let mut watch = StateWatch::new();
    for _ in 0..3 {
        assert_eq!(run_watch_check(&mut watch), SelfTestStatus::Passed);
    }
    on_frame(CommandSource::EspNow, &Frame::with_dest(1, GamepadState::empty(), 1), 3, &mut watch);
    let before = watch.latest();
    assert_eq!(run_watch_check(&mut watch), SelfTestStatus::Passed);
    assert_eq!(watch.latest(), before);
}
