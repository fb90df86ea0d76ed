use kernel_core::task::keyboard::{
    add_scancode, ScancodeStream, StreamPoll, SCANCODE_QUEUE_CAPACITY,
};
use kernel_core::vga_buffer::{Color, ColorCode, Writer, BUFFER_HEIGHT};

#[test]
fn pushes_within_capacity_pop_in_fifo_order() {
    let (mut stream, mut queue) = ScancodeStream::new();
    let mut writer = Writer::new(ColorCode::new(Color::Yellow, Color::Black));
    let bytes: Vec<u8> = (0..50u8).collect();
    for &b in bytes.iter() {
        let woken = add_scancode(&mut queue, &mut writer, b);
        assert_eq!(woken, None);
    }
    for &b in bytes.iter() {
        assert_eq!(stream.poll_next(&mut queue, 0), StreamPoll::Ready(b));
    }
    assert_eq!(stream.poll_next(&mut queue, 0), StreamPoll::Pending);
}

#[test]
fn overflow_drops_only_the_excess_and_warns() {
    let (mut stream, mut queue) = ScancodeStream::new();
    let mut writer = Writer::new(ColorCode::new(Color::Yellow, Color::Black));
    let total = SCANCODE_QUEUE_CAPACITY + 5;
    for i in 0..total {
        add_scancode(&mut queue, &mut writer, i as u8);
    }
    // The retained prefix comes out complete and in order.
    for i in 0..SCANCODE_QUEUE_CAPACITY {
        assert_eq!(stream.poll_next(&mut queue, 0), StreamPoll::Ready(i as u8));
    }
    assert_eq!(stream.poll_next(&mut queue, 0), StreamPoll::Pending);
    // Each dropped byte produced a diagnostic line on the display.
    let warned = writer.read_cell(BUFFER_HEIGHT - 2, 0).ascii_character;
    assert_eq!(warned, b'W');
}

#[test]
fn empty_queue_registers_waker_and_byte_wakes_it() {
    let (mut stream, mut queue) = ScancodeStream::new();
    let mut writer = Writer::new(ColorCode::new(Color::Yellow, Color::Black));
    assert_eq!(stream.poll_next(&mut queue, 7), StreamPoll::Pending);
    // The first byte consumes the registration and hands the waker back.
    assert_eq!(add_scancode(&mut queue, &mut writer, 0x23), Some(7));
    // A second byte finds no registration left.
    assert_eq!(add_scancode(&mut queue, &mut writer, 0x24), None);
    assert_eq!(stream.poll_next(&mut queue, 7), StreamPoll::Ready(0x23));
    assert_eq!(stream.poll_next(&mut queue, 7), StreamPoll::Ready(0x24));
    assert_eq!(stream.poll_next(&mut queue, 7), StreamPoll::Pending);
}

#[test]
fn registering_replaces_previous_waker() {
    let (mut stream, mut queue) = ScancodeStream::new();
    let mut writer = Writer::new(ColorCode::new(Color::Yellow, Color::Black));
    assert_eq!(stream.poll_next(&mut queue, 1), StreamPoll::Pending);
    assert_eq!(stream.poll_next(&mut queue, 2), StreamPoll::Pending);
    assert_eq!(add_scancode(&mut queue, &mut writer, 9), Some(2));
}
