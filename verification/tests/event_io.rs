use dropseed::events::{
    AutomationIoEvent, NoteEventType, NoteIoEvent, PluginEventIoBuffers,
    PluginEventOutputSanitizer, PluginIoEvent,
};

fn param(id: u32, value: i64) -> AutomationIoEvent {
    AutomationIoEvent { frame: 0, parameter_id: id, value }
}

fn note(key: i16) -> NoteIoEvent {
    NoteIoEvent { frame: 0, channel: 0, key, event_type: NoteEventType::Off, velocity: 0 }
}

#[test]
fn sanitizer_drops_out_of_range_parameter_ids() {
    let mut s = PluginEventOutputSanitizer::new(4);
    let evs = vec![param(0, 1), param(4, 2), param(3, 3)];
    let out = s.sanitize(&evs);
    assert_eq!(out.len(), 2);
    assert_eq!(out[0].parameter_id, 0);
    assert_eq!(out[1].parameter_id, 3);
}

#[test]
fn sanitizer_keeps_only_the_first_event_per_parameter() {
    let mut s = PluginEventOutputSanitizer::new(8);
    let evs = vec![param(5, 10), param(5, 20), param(2, 30), param(5, 40)];
    let out = s.sanitize(&evs);
    assert_eq!(out.len(), 2);
    assert_eq!(out[0].parameter_id, 5);
    assert_eq!(out[0].value, 10);
    assert_eq!(out[1].parameter_id, 2);
}

#[test]
fn sanitizer_forgets_previous_cycles() {
    let mut s = PluginEventOutputSanitizer::new(8);
    let first = s.sanitize(&vec![param(1, 7)]);
    assert_eq!(first.len(), 1);
    // The same id is legitimate again in the next cycle.
    let second = s.sanitize(&vec![param(1, 8)]);
    assert_eq!(second.len(), 1);
    assert_eq!(second[0].value, 8);
}

#[test]
fn write_input_events_appends_params_then_notes() {
    let eb = PluginEventIoBuffers {
        note_in: vec![note(60)],
        note_out: Vec::new(),
        automation_in: vec![param(2, 5)],
        automation_out_buffer: None,
    };
    let mut scratch: Vec<PluginIoEvent> = Vec::new();
    let (has_note, has_param) = eb.write_input_events(&mut scratch);
    assert!(has_note);
    assert!(has_param);
    assert_eq!(scratch.len(), 2);
    assert!(matches!(scratch[0], PluginIoEvent::Param(p) if p.parameter_id == 2));
    assert!(matches!(scratch[1], PluginIoEvent::Note(n) if n.key == 60));
}

#[test]
fn write_input_events_reports_absence() {
    let eb = PluginEventIoBuffers {
        note_in: Vec::new(),
        note_out: Vec::new(),
        automation_in: Vec::new(),
        automation_out_buffer: None,
    };
    let mut scratch: Vec<PluginIoEvent> = Vec::new();
    let (has_note, has_param) = eb.write_input_events(&mut scratch);
    assert!(!has_note);
    assert!(!has_param);
    assert!(scratch.is_empty());
}

#[test]
fn clear_before_process_empties_only_the_outputs() {
    let mut eb = PluginEventIoBuffers {
        note_in: vec![note(1)],
        note_out: vec![note(2)],
        automation_in: vec![param(1, 1)],
        automation_out_buffer: Some(vec![param(2, 2)]),
    };
    eb.clear_before_process();
    assert_eq!(eb.note_in.len(), 1);
    assert_eq!(eb.automation_in.len(), 1);
    assert!(eb.note_out.is_empty());
    assert!(eb.automation_out_buffer.as_ref().unwrap().is_empty());
}

#[test]
fn read_output_events_splits_notes_and_sanitized_params() {
    let mut eb = PluginEventIoBuffers {
        note_in: Vec::new(),
        note_out: Vec::new(),
        automation_in: Vec::new(),
        automation_out_buffer: None,
    };
    let mut s = PluginEventOutputSanitizer::new(4);
    let out_events = vec![
        PluginIoEvent::Note(note(60)),
        PluginIoEvent::Param(param(1, 10)),
        PluginIoEvent::Param(param(1, 11)),
        PluginIoEvent::Param(param(9, 12)),
        PluginIoEvent::Note(note(61)),
    ];
    let params = eb.read_output_events(&out_events, &mut s);
    assert_eq!(eb.note_out.len(), 2);
    assert_eq!(eb.note_out[0].key, 60);
    assert_eq!(eb.note_out[1].key, 61);
    assert_eq!(params.len(), 1);
    assert_eq!(params[0].value, 10);
}
