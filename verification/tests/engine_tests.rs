use pointer_quest::bench::benchmark_performance;
use pointer_quest::bench::elapsed_millis;
use pointer_quest::project;
use pointer_quest::render::DrawCmd;
use pointer_quest::scene::AnimationEngine;
use pointer_quest::scene::MemoryBlock3D;
use pointer_quest::scene::MemoryType;
use pointer_quest::scene::Pointer3D;

fn ptr(id: &str, start: (i32, i32, i32), end: (i32, i32, i32), color: &str, thickness: i32, animated: bool) -> Pointer3D {
    Pointer3D {
        id: id.to_string(),
        start_x: start.0,
        start_y: start.1,
        start_z: start.2,
        end_x: end.0,
        end_y: end.1,
        end_z: end.2,
        color: color.to_string(),
        thickness_milli: thickness,
        animated,
        animation_progress_micro: 0,
    }
}

fn block(id: &str, pos: (i32, i32, i32), size: (i32, i32, i32), color: &str, value: Option<&str>) -> MemoryBlock3D {
    MemoryBlock3D {
        id: id.to_string(),
        x: pos.0,
        y: pos.1,
        z: pos.2,
        width: size.0,
        height: size.1,
        depth: size.2,
        color: color.to_string(),
        value: value.map(|v| v.to_string()),
        memory_type: MemoryType::Heap,
    }
}

fn lines(cmds: &[DrawCmd]) -> Vec<(i64, i64, i64, i64, String, i64)> {
    cmds.iter()
        .filter_map(|c| match c {
            DrawCmd::Line { x1, y1, x2, y2, color, width } => {
                Some((*x1, *y1, *x2, *y2, color.clone(), *width))
            }
            _ => None,
        })
        .collect()
}

#[test]
fn upsert_overwrites_pointer_with_same_id() {
    let mut e = AnimationEngine::new(0);
    e.add_pointer(ptr("p", (0, 0, 0), (1000, 1000, 0), "red", 1000, false));
    assert_eq!(e.get_pointer_count(), 1);
    e.add_pointer(ptr("p", (0, 0, 0), (2000, 3000, 0), "blue", 1500, false));
    assert_eq!(e.get_pointer_count(), 1);
    let ls = lines(&e.render());
    assert_eq!(ls.len(), 1);
    assert_eq!(ls[0], (0, 0, 4000, 6000, "blue".to_string(), 3000));
}

#[test]
fn upsert_overwrites_block_with_same_id() {
    let mut e = AnimationEngine::new(0);
    e.add_memory_block(block("b", (0, 0, 0), (10_000, 5000, 0), "green", None));
    e.add_memory_block(block("b", (1000, 0, 0), (20_000, 5000, 0), "gray", Some("42")));
    assert_eq!(e.get_memory_block_count(), 1);
    let cmds = e.render();
    let fills: Vec<_> = cmds
        .iter()
        .filter_map(|c| match c {
            DrawCmd::FillRect { x, width, color, .. } => Some((*x, *width, color.clone())),
            _ => None,
        })
        .collect();
    assert_eq!(fills, vec![(2000, 40_000, "gray".to_string())]);
}

#[test]
fn removal_is_idempotent() {
    let mut e = AnimationEngine::new(0);
    e.add_pointer(ptr("p", (0, 0, 0), (1000, 1000, 0), "red", 1000, false));
    e.add_memory_block(block("b", (0, 0, 0), (1000, 1000, 0), "green", None));
    e.remove_pointer("p");
    assert_eq!(e.get_pointer_count(), 0);
    e.remove_pointer("p");
    assert_eq!(e.get_pointer_count(), 0);
    e.remove_pointer("never-added");
    assert_eq!(e.get_pointer_count(), 0);
    e.remove_memory_block("b");
    e.remove_memory_block("b");
    e.remove_memory_block("never-added");
    assert_eq!(e.get_memory_block_count(), 0);
}

#[test]
fn position_update_changes_only_the_end_point() {
    let mut e = AnimationEngine::new(0);
    e.add_pointer(ptr("a", (1000, 2000, 3000), (4000, 5000, 6000), "cyan", 1000, false));
    e.update_pointer_position("a", 7000, 8000, 9000);
    let ls = lines(&e.render());
    assert_eq!(ls.len(), 1);
    // start projection unchanged, end moved, color and thickness kept
    assert_eq!(ls[0], (-1000, 1000, 5000, 7000, "cyan".to_string(), 2000));
}

#[test]
fn position_update_on_absent_id_is_a_no_op() {
    let mut e = AnimationEngine::new(0);
    e.add_pointer(ptr("a", (1000, 2000, 3000), (4000, 5000, 6000), "cyan", 1000, false));
    e.update_pointer_position("b", 7000, 8000, 9000);
    let ls = lines(&e.render());
    assert_eq!(ls[0], (-1000, 1000, 2000, 4000, "cyan".to_string(), 2000));
    assert_eq!(e.get_pointer_count(), 1);
}

#[test]
fn animation_advances_and_wraps_to_zero() {
    // default speed: one cycle per second
    let mut e = AnimationEngine::new(0);
    e.add_pointer(ptr("p", (0, 0, 0), (1000, 0, 0), "red", 1000, true));
    e.animate(600);
    // 0.6 of a cycle: thickness 3 + 2*sin(0.6 * full turn) = 1.826 units
    assert_eq!(lines(&e.render())[0].5, 3652);
    e.animate(1200);
    // 0.6 + 0.6 > 1: the cycle position resets to 0, thickness back to 3
    assert_eq!(lines(&e.render())[0].5, 6000);
}

#[test]
fn a_position_of_exactly_one_cycle_is_retained_once() {
    let mut e = AnimationEngine::new(0);
    e.set_animation_speed(100);
    e.add_pointer(ptr("p", (0, 0, 0), (1000, 0, 0), "red", 1000, true));
    e.animate(10_000);
    // 10 s at 0.1 cycles/s: exactly one full cycle, retained (not wrapped)
    assert_eq!(lines(&e.render())[0].5, 6000);
    e.animate(12_500);
    // the next step pushes it strictly past one cycle: reset to 0
    assert_eq!(lines(&e.render())[0].5, 6000);
    e.animate(15_000);
    // a quarter cycle from 0, not from a stale position: peak thickness
    assert_eq!(lines(&e.render())[0].5, 10_000);
}

#[test]
fn non_animated_pointers_keep_their_thickness() {
    let mut e = AnimationEngine::new(0);
    e.add_pointer(ptr("p", (0, 0, 0), (1000, 0, 0), "red", 7777, false));
    e.animate(600);
    e.animate(1300);
    assert_eq!(lines(&e.render())[0].5, 15_554);
}

#[test]
fn animated_thickness_stays_between_one_and_five_units() {
    let mut e = AnimationEngine::new(0);
    e.add_pointer(ptr("p", (0, 0, 0), (1000, 0, 0), "red", 1000, true));
    let steps = [13u64, 100, 250, 333, 420, 500, 640, 750, 875, 999, 1024, 5000, 123_456];
    let mut now = 0u64;
    for s in steps {
        now += s;
        e.animate(now);
        let w = lines(&e.render())[0].5;
        assert!((2000..=10_000).contains(&w), "width {} out of range", w);
    }
}

#[test]
fn speed_below_range_clamps_to_a_tenth_of_a_cycle() {
    let mut e = AnimationEngine::new(0);
    // -5 cycles per second, clamped to 0.1
    e.set_animation_speed(-5000);
    e.add_pointer(ptr("p", (0, 0, 0), (1000, 0, 0), "red", 1000, true));
    e.animate(2500);
    // 2.5 s at 0.1 cycles/s is a quarter cycle: peak thickness of 5 units
    assert_eq!(lines(&e.render())[0].5, 10_000);
}

#[test]
fn speed_above_range_clamps_to_five_cycles() {
    let mut e = AnimationEngine::new(0);
    // 100 cycles per second, clamped to 5
    e.set_animation_speed(100_000);
    e.add_pointer(ptr("p", (0, 0, 0), (1000, 0, 0), "red", 1000, true));
    e.animate(50);
    // 50 ms at 5 cycles/s is a quarter cycle: peak thickness of 5 units
    assert_eq!(lines(&e.render())[0].5, 10_000);
}

#[test]
fn reset_clears_content_but_keeps_the_speed() {
    let mut e = AnimationEngine::new(0);
    e.set_animation_speed(2000);
    e.add_pointer(ptr("p", (0, 0, 0), (1000, 0, 0), "red", 1000, true));
    e.add_memory_block(block("b", (0, 0, 0), (1000, 1000, 0), "green", None));
    e.reset();
    assert_eq!(e.get_pointer_count(), 0);
    assert_eq!(e.get_memory_block_count(), 0);
    // the speed of 2 cycles/s survives the reset: an eighth of a second
    // later a fresh pointer stands at a quarter cycle
    e.add_pointer(ptr("q", (0, 0, 0), (1000, 0, 0), "red", 1000, true));
    e.animate(125);
    assert_eq!(lines(&e.render())[0].5, 10_000);
}

#[test]
fn blocks_are_drawn_before_pointers() {
    let mut e = AnimationEngine::new(0);
    e.add_memory_block(block("b", (0, 0, 0), (50_000, 30_000, 0), "green", Some("x")));
    e.add_pointer(ptr("p", (-5000, -5000, 0), (5000, 5000, 0), "red", 1000, false));
    let cmds = e.render();
    assert!(matches!(&cmds[0], DrawCmd::Clear));
    let block_kind = |c: &DrawCmd| {
        matches!(
            c,
            DrawCmd::FillRect { .. } | DrawCmd::StrokeRect { .. } | DrawCmd::FillText { .. }
        )
    };
    let pointer_kind =
        |c: &DrawCmd| matches!(c, DrawCmd::Line { .. } | DrawCmd::ArrowHead { .. });
    let last_block = cmds.iter().rposition(block_kind).unwrap();
    let first_pointer = cmds.iter().position(pointer_kind).unwrap();
    assert!(last_block < first_pointer);
    assert_eq!(cmds.len(), 6);
}

#[test]
fn rendering_an_empty_scene_only_clears() {
    let e = AnimationEngine::new(0);
    let cmds = e.render();
    assert_eq!(cmds.len(), 1);
    assert!(matches!(&cmds[0], DrawCmd::Clear));
}

#[test]
fn a_block_renders_fill_border_and_label() {
    let mut e = AnimationEngine::new(0);
    e.add_memory_block(block("b", (10_000, 10_000, 4000), (50_000, 30_000, 2000), "green", Some("42")));
    let cmds = e.render();
    assert_eq!(cmds.len(), 4);
    match &cmds[1] {
        DrawCmd::FillRect { x, y, width, height, color } => {
            assert_eq!((*x, *y, *width, *height), (16_000, 16_000, 100_000, 60_000));
            assert_eq!(color, "green");
        }
        other => panic!("expected a fill, got {:?}", cmd_name(other)),
    }
    match &cmds[2] {
        DrawCmd::StrokeRect { x, y, width, height, color, line_width } => {
            assert_eq!((*x, *y, *width, *height), (16_000, 16_000, 100_000, 60_000));
            assert_eq!(color, "white");
            assert_eq!(*line_width, 4000);
        }
        other => panic!("expected a border, got {:?}", cmd_name(other)),
    }
    match &cmds[3] {
        DrawCmd::FillText { text, x, y, color, font_px } => {
            assert_eq!(text, "42");
            assert_eq!((*x, *y), (36_000, 66_000));
            assert_eq!(color, "white");
            assert_eq!(*font_px, 14);
        }
        other => panic!("expected a label, got {:?}", cmd_name(other)),
    }
}

#[test]
fn a_block_without_value_renders_no_label() {
    let mut e = AnimationEngine::new(0);
    e.add_memory_block(block("b", (0, 0, 0), (1000, 1000, 0), "green", None));
    let cmds = e.render();
    assert_eq!(cmds.len(), 3);
    assert!(!cmds.iter().any(|c| matches!(c, DrawCmd::FillText { .. })));
}

#[test]
fn a_pointer_renders_line_then_arrowhead() {
    let mut e = AnimationEngine::new(0);
    e.add_pointer(ptr("p", (1000, 2000, 3000), (4000, 5000, 6000), "cyan", 1500, false));
    let cmds = e.render();
    assert_eq!(cmds.len(), 3);
    match &cmds[2] {
        DrawCmd::ArrowHead { x, y, from_x, from_y, length, color, width } => {
            assert_eq!((*x, *y, *from_x, *from_y), (2000, 4000, -1000, 1000));
            assert_eq!(*length, 30_000);
            assert_eq!(color, "cyan");
            assert_eq!(*width, 3000);
        }
        other => panic!("expected an arrowhead, got {:?}", cmd_name(other)),
    }
}

#[test]
fn projection_drops_half_the_depth_exactly() {
    // the point (10, 10, 4) projects to (8, 8): sub-units are halves of a
    // milli-unit, so one scene unit is 2000 sub-units
    let (x, y) = project(10_000, 10_000, 4000);
    assert_eq!((x, y), (16_000, 16_000));
    assert_eq!((x / pointer_quest::SUB_PER_UNIT, y / pointer_quest::SUB_PER_UNIT), (8, 8));
    let (x, y) = project(i32::MAX, i32::MAX, i32::MIN);
    assert_eq!((x, y), (6_442_450_942, 6_442_450_942));
}

#[test]
fn benchmark_workload_runs_and_is_bounded() {
    assert_eq!(benchmark_performance(0), 0);
    // the first positions of the cycle have a sine below the fixed-point
    // resolution
    assert_eq!(benchmark_performance(10), 0);
    let n: u64 = 2_000_000;
    let sum = benchmark_performance(n);
    assert!(sum.abs() <= 1000 * (n as i128));
}

#[test]
fn elapsed_time_is_never_negative() {
    assert_eq!(elapsed_millis(5, 9), 4);
    assert_eq!(elapsed_millis(9, 9), 0);
    assert_eq!(elapsed_millis(9, 5), 0);
}

fn cmd_name(c: &DrawCmd) -> &'static str {
    match c {
        DrawCmd::Clear => "Clear",
        DrawCmd::FillRect { .. } => "FillRect",
        DrawCmd::StrokeRect { .. } => "StrokeRect",
        DrawCmd::FillText { .. } => "FillText",
        DrawCmd::Line { .. } => "Line",
        DrawCmd::ArrowHead { .. } => "ArrowHead",
    }
}

#[test]
fn distinct_ids_accumulate() {
    let mut e = AnimationEngine::new(0);
    e.add_pointer(ptr("p1", (0, 0, 0), (1000, 0, 0), "red", 1000, false));
    e.add_pointer(ptr("p2", (0, 0, 0), (2000, 0, 0), "blue", 1000, false));
    e.add_memory_block(block("b1", (0, 0, 0), (1000, 1000, 0), "green", None));
    e.add_memory_block(block("b2", (0, 0, 0), (1000, 1000, 0), "gray", None));
    assert_eq!(e.get_pointer_count(), 2);
    assert_eq!(e.get_memory_block_count(), 2);
    assert_eq!(lines(&e.render()).len(), 2);
    e.remove_pointer("p1");
    assert_eq!(e.get_pointer_count(), 1);
    assert_eq!(lines(&e.render())[0].4, "blue");
}

#[test]
fn a_clock_running_backwards_adds_no_progress() {
    let mut e = AnimationEngine::new(1000);
    e.add_pointer(ptr("p", (0, 0, 0), (1000, 0, 0), "red", 1000, true));
    e.animate(500);
    // no time elapsed: the cycle position stays at 0, but the thickness of
    // an animated pointer is still re-derived from it
    assert_eq!(lines(&e.render())[0].5, 6000);
    e.animate(1100);
    // the backwards reading became the new frame time: 600 ms elapsed
    assert_eq!(lines(&e.render())[0].5, 3652);
}
