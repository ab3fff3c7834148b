use batch_kernel::batch::{
    clear_window, run_next_app, AppManagerInner, AppTableError, Hart, KernelStack, LoadOutcome, RunStep,
    UserStack, APP_BASE_ADDRESS, APP_SIZE_LIMIT, KERNEL_STACK_SIZE, USER_STACK_SIZE,
};
use batch_kernel::context::{TrapContext, TRAP_CONTEXT_SIZE};

fn image_bytes(len: usize) -> Vec<u8> {
    (0..len).map(|i| (i % 251) as u8 + 1).collect()
}

fn three_boundary_table() -> AppManagerInner {
    let raw = vec![2, 0x1000, 0x1100, 0x1300];
    AppManagerInner::from_raw(&raw, 0x1000, image_bytes(0x300)).unwrap()
}

fn dirty_window() -> Vec<u8> {
    vec![0xAA; APP_SIZE_LIMIT]
}

#[test]
fn load_copies_each_app_and_halts_past_the_last() {
    let m = three_boundary_table();
    let images = image_bytes(0x300);

    let mut w = dirty_window();
    assert_eq!(m.load_app(0, &mut w), LoadOutcome::Loaded { src: 0x1000, len: 0x100 });
    assert_eq!(&w[..0x100], &images[..0x100]);
    assert!(w[0x100..].iter().all(|&b| b == 0));

    let mut w = dirty_window();
    assert_eq!(m.load_app(1, &mut w), LoadOutcome::Loaded { src: 0x1100, len: 0x200 });
    assert_eq!(&w[..0x200], &images[0x100..0x300]);
    assert!(w[0x200..].iter().all(|&b| b == 0));

    let mut w = dirty_window();
    assert_eq!(m.load_app(2, &mut w), LoadOutcome::NoAppToRun);
    assert!(w.iter().all(|&b| b == 0xAA));
}

#[test]
fn load_past_the_end_never_copies() {
    let m = three_boundary_table();
    for i in [2usize, 3, 100, usize::MAX] {
        let mut w = dirty_window();
        assert_eq!(m.load_app(i, &mut w), LoadOutcome::NoAppToRun);
        assert!(w.iter().all(|&b| b == 0xAA));
    }
}

#[test]
fn empty_image_leaves_a_zeroed_window() {
    let raw = vec![1, 0x2000, 0x2000];
    let m = AppManagerInner::from_raw(&raw, 0x2000, Vec::new()).unwrap();
    let mut w = dirty_window();
    assert_eq!(m.load_app(0, &mut w), LoadOutcome::Loaded { src: 0x2000, len: 0 });
    assert!(w.iter().all(|&b| b == 0));
}

#[test]
fn clear_window_zeroes_every_byte() {
    let mut w = vec![7u8; 33];
    clear_window(&mut w);
    assert_eq!(w, vec![0u8; 33]);
}

#[test]
fn raw_table_errors() {
    let img = image_bytes(0x300);
    assert_eq!(AppManagerInner::from_raw(&vec![], 0x1000, img.clone()).err(), Some(AppTableError::Truncated));
    assert_eq!(AppManagerInner::from_raw(&vec![2, 0x1000, 0x1100], 0x1000, img.clone()).err(), Some(AppTableError::Truncated));
    assert_eq!(AppManagerInner::from_raw(&vec![17], 0x1000, img.clone()).err(), Some(AppTableError::TooManyApps));
    assert_eq!(AppManagerInner::from_raw(&vec![2, 0x1000, 0x1200, 0x1100], 0x1000, img.clone()).err(), Some(AppTableError::Unordered));
    assert_eq!(AppManagerInner::from_raw(&vec![1, 0x0f00, 0x1100], 0x1000, img.clone()).err(), Some(AppTableError::OutsideImages));
    assert_eq!(AppManagerInner::from_raw(&vec![1, 0x1000, 0x1301], 0x1000, img.clone()).err(), Some(AppTableError::OutsideImages));
    let big = vec![0u8; APP_SIZE_LIMIT + 1];
    assert_eq!(AppManagerInner::from_raw(&vec![1, 0, APP_SIZE_LIMIT + 1], 0, big).err(), Some(AppTableError::ImageTooLarge));
}

#[test]
fn table_at_capacity_is_accepted() {
    let mut raw = vec![16usize];
    for i in 0..=16usize {
        raw.push(0x100 * i);
    }
    let m = AppManagerInner::from_raw(&raw, 0, image_bytes(0x1000)).unwrap();
    assert_eq!(m.num_app, 16);
    assert_eq!(m.get_current_app(), 0);
    assert_eq!(m.app_range(15), Some((0xf00, 0x1000)));
    assert_eq!(m.app_range(16), None);
}

#[test]
fn run_loop_launches_apps_in_order_then_halts() {
    let mut m = three_boundary_table();
    let mut hart = Hart::new(1, 0x9000_0000, 0x9100_0000);
    let first = run_next_app(&mut m, &mut hart, 0);
    let entry = APP_BASE_ADDRESS + APP_SIZE_LIMIT;
    let cx_addr = 0x9000_0000 + KERNEL_STACK_SIZE - TRAP_CONTEXT_SIZE;
    assert_eq!(first, RunStep::Launched { app_id: 0, entry, cx_addr });
    assert_eq!(m.get_current_app(), 1);
    let second = run_next_app(&mut m, &mut hart, 0);
    assert_eq!(second, RunStep::Launched { app_id: 1, entry, cx_addr });
    assert_eq!(m.get_current_app(), 2);
    assert_eq!(run_next_app(&mut m, &mut hart, 0), RunStep::Halted);
    assert_eq!(m.get_current_app(), 2);
    assert_eq!(run_next_app(&mut m, &mut hart, 0), RunStep::Halted);
}

#[test]
fn launched_context_starts_the_app_in_user_mode() {
    let mut m = three_boundary_table();
    let mut hart = Hart::new(0, 0x9000_0000, 0x9100_0000);
    // previous privilege supervisor, previous interrupts off, interrupts on
    run_next_app(&mut m, &mut hart, 0x102);
    let cx = hart.kernel_stack.live.as_ref().unwrap();
    assert_eq!(cx.sepc, APP_BASE_ADDRESS);
    assert_eq!(cx.x[2], 0x9100_0000 + USER_STACK_SIZE);
    assert_eq!(cx.sstatus, 0x22);
    assert!(cx.x.iter().enumerate().all(|(i, &r)| i == 2 || r == 0));
}

#[test]
fn stacks_and_window_addresses() {
    assert_eq!(AppManagerInner::app_base_addr(0), 0x8028_0000);
    assert_eq!(AppManagerInner::app_base_addr(3), 0x8028_0000 + 3 * 0x20000);
    assert_eq!(KernelStack::new(0x1000).get_sp(), 0x1000 + 8192);
    assert_eq!(UserStack { base: 0x4000 }.get_sp(), 0x4000 + 8192);
    let mut ks = KernelStack::new(0x1000);
    let cx = TrapContext::app_init_context(0x10, 0x20, 0);
    assert_eq!(ks.push_context(cx), 0x1000 + 8192 - 272);
    let cx2 = TrapContext::app_init_context(0x30, 0x40, 0);
    ks.push_context(cx2);
    assert_eq!(ks.live.as_ref().unwrap().sepc, 0x30);
}

#[test]
fn move_to_next_app_does_not_bound_check() {
    let mut m = three_boundary_table();
    m.move_to_next_app();
    m.move_to_next_app();
    m.move_to_next_app();
    assert_eq!(m.get_current_app(), 3);
    let mut w = dirty_window();
    assert_eq!(m.load_app(m.get_current_app(), &mut w), LoadOutcome::NoAppToRun);
}
