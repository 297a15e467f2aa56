use dropseed::buffer::{DebugBufferID, DebugBufferType, SharedBuffer};
use dropseed::events::{AutomationIoEvent, NoteEventType, NoteIoEvent};
use dropseed::sum_task::{AudioSumTask, AutomationSumTask, NoteSumTask};

fn audio_id(index: u32) -> DebugBufferID {
    DebugBufferID { index, buffer_type: DebugBufferType::Audio32 }
}

fn audio_buf(index: u32, samples: &[i32], constant: bool) -> SharedBuffer<i32> {
    let mut b = SharedBuffer::new(samples.len(), audio_id(index));
    for (i, s) in samples.iter().enumerate() {
        b.set(i, *s);
    }
    b.set_constant(constant);
    b
}

fn note(key: i16) -> NoteIoEvent {
    NoteIoEvent { frame: 0, channel: 0, key, event_type: NoteEventType::On, velocity: 100 }
}

fn param(id: u32, value: i64) -> AutomationIoEvent {
    AutomationIoEvent { frame: 0, parameter_id: id, value }
}

#[test]
fn audio_sum_constant_silent_and_varying_inputs() {
    // Inputs: a constant buffer holding 2, a constant-silent buffer, and a
    // varying non-constant buffer starting at 3. The silent input is skipped,
    // so the output is input 1 plus input 3 sample-wise, and the varying
    // input clears the output's constant flag.
    let frames = 4;
    let mut pool = vec![
        audio_buf(0, &[2, 2, 2, 2], true),
        audio_buf(1, &[0, 0, 0, 0], true),
        audio_buf(2, &[3, 4, 5, 6], false),
        audio_buf(3, &[99, 99, 99, 99], true),
    ];
    let task = AudioSumTask { audio_in: vec![0, 1, 2], audio_out: 3 };
    task.process(&mut pool, frames);
    assert_eq!(*pool[3].get(0), 5);
    assert_eq!(*pool[3].get(1), 6);
    assert_eq!(*pool[3].get(2), 7);
    assert_eq!(*pool[3].get(3), 8);
    assert!(!pool[3].is_constant());
}

#[test]
fn audio_sum_all_constant_silent_inputs_yield_silence() {
    // With every input constant-silent the output is all-zero and the
    // constant flag is set.
    let frames = 4;
    let mut pool = vec![
        audio_buf(0, &[0, 0, 0, 0], true),
        audio_buf(1, &[0, 0, 0, 0], true),
        audio_buf(2, &[5, 5, 5, 5], false),
    ];
    let task = AudioSumTask { audio_in: vec![0, 1], audio_out: 2 };
    task.process(&mut pool, frames);
    for i in 0..frames {
        assert_eq!(*pool[2].get(i), 0);
    }
    assert!(pool[2].is_constant());
}

#[test]
fn audio_sum_constant_nonsilent_input_adds_scalar() {
    // A constant non-silent input contributes its first sample to every
    // output sample without the input's later samples being read, and it
    // clears the output's constant flag.
    let frames = 3;
    let mut pool = vec![
        audio_buf(0, &[1, 1, 1], true),
        // The hint claims constant, so sample 0 is what counts.
        audio_buf(1, &[7, 1000, -1000], true),
        audio_buf(2, &[0, 0, 0], false),
    ];
    let task = AudioSumTask { audio_in: vec![0, 1], audio_out: 2 };
    task.process(&mut pool, frames);
    assert_eq!(*pool[2].get(0), 8);
    assert_eq!(*pool[2].get(1), 8);
    assert_eq!(*pool[2].get(2), 8);
    assert!(!pool[2].is_constant());
}

#[test]
fn audio_sum_single_input_copies_and_keeps_hint() {
    let frames = 2;
    let mut pool = vec![audio_buf(0, &[4, 4], true), audio_buf(1, &[0, 0], false)];
    let task = AudioSumTask { audio_in: vec![0], audio_out: 1 };
    task.process(&mut pool, frames);
    assert_eq!(*pool[1].get(0), 4);
    assert_eq!(*pool[1].get(1), 4);
    assert!(pool[1].is_constant());
}

#[test]
fn audio_sum_addition_wraps() {
    let frames = 1;
    let mut pool = vec![
        audio_buf(0, &[i32::MAX], false),
        audio_buf(1, &[1, 0], false),
        audio_buf(2, &[0], false),
    ];
    let task = AudioSumTask { audio_in: vec![0, 1], audio_out: 2 };
    task.process(&mut pool, frames);
    assert_eq!(*pool[2].get(0), i32::MIN);
}

#[test]
fn audio_sum_leaves_tail_beyond_frames_untouched() {
    let frames = 2;
    let mut pool = vec![audio_buf(0, &[1, 2, 3, 4], false), audio_buf(1, &[9, 9, 9, 9], false)];
    let task = AudioSumTask { audio_in: vec![0], audio_out: 1 };
    task.process(&mut pool, frames);
    assert_eq!(*pool[1].get(0), 1);
    assert_eq!(*pool[1].get(1), 2);
    assert_eq!(*pool[1].get(2), 9);
    assert_eq!(*pool[1].get(3), 9);
}

#[test]
fn note_sum_concatenates_inputs_in_input_order() {
    // Inputs [A, B] then [C] yield [A, B, C], each input's internal order
    // preserved.
    let id = |i| DebugBufferID { index: i, buffer_type: DebugBufferType::Note };
    let mut first: SharedBuffer<NoteIoEvent> = SharedBuffer::with_capacity(4, id(0));
    first.push(note(60));
    first.push(note(64));
    let mut second: SharedBuffer<NoteIoEvent> = SharedBuffer::with_capacity(4, id(1));
    second.push(note(67));
    let mut out: SharedBuffer<NoteIoEvent> = SharedBuffer::with_capacity(4, id(2));
    out.push(note(1)); // stale content from an earlier cycle
    let mut pool = vec![first, second, out];

    let task = NoteSumTask { note_in: vec![0, 1], note_out: 2 };
    task.process(&mut pool);
    assert_eq!(pool[2].len(), 3);
    assert_eq!(pool[2].get(0).key, 60);
    assert_eq!(pool[2].get(1).key, 64);
    assert_eq!(pool[2].get(2).key, 67);
}

#[test]
fn automation_sum_concatenates_and_clears_stale_output() {
    let id = |i| DebugBufferID { index: i, buffer_type: DebugBufferType::Event };
    let mut first: SharedBuffer<AutomationIoEvent> = SharedBuffer::with_capacity(4, id(0));
    first.push(param(1, 10));
    first.push(param(2, 20));
    let mut second: SharedBuffer<AutomationIoEvent> = SharedBuffer::with_capacity(4, id(1));
    second.push(param(3, 30));
    let mut out: SharedBuffer<AutomationIoEvent> = SharedBuffer::with_capacity(4, id(2));
    out.push(param(9, 90));
    let mut pool = vec![first, second, out];

    let task = AutomationSumTask { input: vec![0, 1], output: 2 };
    task.process(&mut pool);
    assert_eq!(pool[2].len(), 3);
    assert_eq!(pool[2].get(0).parameter_id, 1);
    assert_eq!(pool[2].get(1).parameter_id, 2);
    assert_eq!(pool[2].get(2).parameter_id, 3);
}

#[test]
fn event_sum_with_no_inputs_just_empties_the_output() {
    let id = |i| DebugBufferID { index: i, buffer_type: DebugBufferType::Note };
    let mut out: SharedBuffer<NoteIoEvent> = SharedBuffer::with_capacity(4, id(0));
    out.push(note(3));
    let mut pool = vec![out];
    let task = NoteSumTask { note_in: vec![], note_out: 0 };
    task.process(&mut pool);
    assert_eq!(pool[0].len(), 0);
}
