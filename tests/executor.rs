use deft_video::executor::{ResultBoard, Signal, SingleThreadExecutor};
use deft_video::layout::{fit_frame, Placement};

#[test]
fn tasks_leave_in_submission_order() {
    let mut e: SingleThreadExecutor<&str> = SingleThreadExecutor::new();
    let ha = e.run("a");
    let hb = e.run("b");
    assert!(ha.ticket < hb.ticket);
    assert_eq!(e.next_task(), Some((ha.ticket, "a")));
    assert_eq!(e.next_task(), Some((hb.ticket, "b")));
    assert_eq!(e.next_task(), None);
}

#[test]
fn each_handle_takes_its_own_result() {
    let mut e: SingleThreadExecutor<i32> = SingleThreadExecutor::new();
    let mut board: ResultBoard<i32> = ResultBoard::new();
    let ha = e.run(2);
    let hb = e.run(3);
    while let Some((ticket, x)) = e.next_task() {
        board.post(ticket, x * 10);
    }
    assert_eq!(hb.wait(&mut board), Some(30));
    assert_eq!(ha.wait(&mut board), Some(20));
    assert_eq!(ha.wait(&mut board), None);
}

#[test]
fn results_filed_out_of_order_reach_their_own_handles() {
    let mut e: SingleThreadExecutor<i32> = SingleThreadExecutor::new();
    let mut board: ResultBoard<i32> = ResultBoard::new();
    let ha = e.run(1);
    let hb = e.run(2);
    board.post(hb.ticket, 200);
    board.post(ha.ticket, 100);
    assert_eq!(ha.wait(&mut board), Some(100));
    assert_eq!(hb.wait(&mut board), Some(200));
}

#[test]
fn wait_before_result_is_none() {
    let mut e: SingleThreadExecutor<i32> = SingleThreadExecutor::new();
    let mut board: ResultBoard<i32> = ResultBoard::new();
    let h = e.run(1);
    assert_eq!(h.wait(&mut board), None);
    assert!(e.has_tickets());
}

#[test]
fn signal_is_shared_by_clones() {
    let s = Signal::new();
    let t = s.clone();
    assert!(!s.is_lit());
    t.lit_up();
    assert!(s.is_lit());
    assert!(t.is_lit());
}

#[test]
fn fit_wide_picture_in_tall_view() {
    assert_eq!(fit_frame(400, 600, 1920, 1080), Some(Placement { left: 0, top: 187, width: 400, height: 225 }));
}

#[test]
fn fit_tall_picture_in_wide_view() {
    assert_eq!(fit_frame(800, 300, 640, 480), Some(Placement { left: 200, top: 0, width: 400, height: 300 }));
}

#[test]
fn fit_without_area() {
    assert_eq!(fit_frame(800, 300, 0, 480), None);
    assert_eq!(fit_frame(0, 300, 640, 480), None);
}
