use kernel_core::task::keyboard::{add_scancode, print_keypresses, KeypressPrinter};
use kernel_core::task::simple_executor::SimpleExecutor;
use kernel_core::task::TaskPoll;
use kernel_core::vga_buffer::{Color, ColorCode, Writer, BUFFER_HEIGHT};

#[test]
fn spawned_task_is_polled_once_then_suspends() {
    let mut executor: SimpleExecutor<KeypressPrinter> = SimpleExecutor::new();
    let (task, mut queue) = print_keypresses();
    let mut writer = Writer::new(ColorCode::new(Color::Yellow, Color::Black));
    let id = executor.spawn(task);
    let polled = executor.run_one(&mut queue, &mut writer);
    assert_eq!(polled, Some((id, TaskPoll::NotReady)));
    // Not ready: absent from the ready set until its waking handle is invoked.
    assert_eq!(executor.run_one(&mut queue, &mut writer), None);
}

#[test]
fn waking_many_times_gives_exactly_one_repoll() {
    let mut executor: SimpleExecutor<KeypressPrinter> = SimpleExecutor::new();
    let (task, mut queue) = print_keypresses();
    let mut writer = Writer::new(ColorCode::new(Color::Yellow, Color::Black));
    let id = executor.spawn(task);
    executor.run(&mut queue, &mut writer);
    // Invoke the waking handle three times before the next poll.
    executor.wake(id);
    executor.wake(id);
    executor.wake(id);
    // Exactly one re-poll follows, not three.
    assert_eq!(executor.run_one(&mut queue, &mut writer), Some((id, TaskPoll::NotReady)));
    assert_eq!(executor.run_one(&mut queue, &mut writer), None);
}

#[test]
fn waking_unknown_identity_is_a_no_op() {
    let mut executor: SimpleExecutor<KeypressPrinter> = SimpleExecutor::new();
    let (_task, mut queue) = print_keypresses();
    let mut writer = Writer::new(ColorCode::new(Color::Yellow, Color::Black));
    executor.wake(42);
    assert_eq!(executor.run_one(&mut queue, &mut writer), None);
}

#[test]
fn key_sequence_reaches_the_display() {
    let mut executor: SimpleExecutor<KeypressPrinter> = SimpleExecutor::new();
    let (task, mut queue) = print_keypresses();
    let mut writer = Writer::new(ColorCode::new(Color::Yellow, Color::Black));
    let id = executor.spawn(task);
    // First pass: nothing queued yet, the task registers its waker.
    executor.run(&mut queue, &mut writer);
    // Scancode set 1: 'h' down/up, 'i' down/up.
    for &scancode in [0x23u8, 0xa3, 0x17, 0x97].iter() {
        if let Some(woken) = add_scancode(&mut queue, &mut writer, scancode) {
            assert_eq!(woken, id);
            executor.wake(woken);
        }
        executor.run(&mut queue, &mut writer);
    }
    assert_eq!(writer.read_cell(BUFFER_HEIGHT - 1, 0).ascii_character, b'h');
    assert_eq!(writer.read_cell(BUFFER_HEIGHT - 1, 1).ascii_character, b'i');
    assert_eq!(writer.column_position(), 2);
}

#[test]
fn key_sequence_in_one_batch_decodes_fully() {
    let mut executor: SimpleExecutor<KeypressPrinter> = SimpleExecutor::new();
    let (task, mut queue) = print_keypresses();
    let mut writer = Writer::new(ColorCode::new(Color::Yellow, Color::Black));
    let id = executor.spawn(task);
    executor.run(&mut queue, &mut writer);
    // h, i, return: the whole burst arrives before the next scheduler pass.
    let mut wakes = 0;
    for &scancode in [0x23u8, 0xa3, 0x17, 0x97, 0x1c, 0x9c].iter() {
        if let Some(woken) = add_scancode(&mut queue, &mut writer, scancode) {
            assert_eq!(woken, id);
            wakes += 1;
            executor.wake(woken);
        }
    }
    assert_eq!(wakes, 1);
    executor.run(&mut queue, &mut writer);
    // The newline from the return key scrolled "hi" up one row.
    assert_eq!(writer.read_cell(BUFFER_HEIGHT - 2, 0).ascii_character, b'h');
    assert_eq!(writer.read_cell(BUFFER_HEIGHT - 2, 1).ascii_character, b'i');
    assert_eq!(writer.column_position(), 0);
}
