use esp32_samples_reader::ctrlc::{
    ignoring_ctrlc, Activation, ActivationAction, ActivationEvent, CtrlCIgnoredOutput,
};
use esp32_samples_reader::stream::StreamEvent;
use std::cell::RefCell;

#[test]
fn quiet_activation_reports_no_interrupt() {
    let record = ignoring_ctrlc(
        || Ok::<u8, String>(1),
        |_previous| Ok(()),
        || false,
        |mut context| {
            assert!(!context.has_received_ctrlc());
            context.observe(false);
            context.observe(false);
            assert!(!context.has_received_ctrlc());
            (context, 42)
        },
    )
    .unwrap();
    assert_eq!(record, CtrlCIgnoredOutput { has_received_ctrlc: false, output: 42 });
}

#[test]
fn interrupt_stays_observed_for_the_rest_of_the_activation() {
    let mut polls = Vec::new();
    let record = ignoring_ctrlc(
        || Ok::<u8, String>(1),
        |_previous| Ok(()),
        || false,
        |mut context| {
            polls.push(context.has_received_ctrlc());
            context.observe(false);
            polls.push(context.has_received_ctrlc());
            context.observe(true);
            polls.push(context.has_received_ctrlc());
            context.observe(false);
            polls.push(context.has_received_ctrlc());
            context.observe(false);
            polls.push(context.has_received_ctrlc());
            (context, "done")
        },
    )
    .unwrap();
    assert_eq!(polls, vec![false, false, true, true, true]);
    assert!(record.has_received_ctrlc);
    assert_eq!(record.output, "done");
}

#[test]
fn repeated_interrupts_are_one() {
    let record = ignoring_ctrlc(
        || Ok::<u8, String>(1),
        |_previous| Ok(()),
        || false,
        |mut context| {
            context.observe(true);
            context.observe(true);
            (context, ())
        },
    )
    .unwrap();
    assert!(record.has_received_ctrlc);
}

#[test]
fn body_failure_is_part_of_the_record() {
    let record = ignoring_ctrlc(
        || Ok::<u8, String>(1),
        |_previous| Ok(()),
        || false,
        |context| (context, Err::<(), &str>("broken pipe")),
    )
    .unwrap();
    assert!(!record.has_received_ctrlc);
    assert_eq!(record.output, Err("broken pipe"));
}

#[test]
fn steps_run_in_order_and_the_handler_is_restored_with_what_install_gave() {
    let log = RefCell::new(Vec::new());
    let record = ignoring_ctrlc(
        || {
            log.borrow_mut().push("install".to_string());
            Ok::<u32, String>(17)
        },
        |previous| {
            log.borrow_mut().push(format!("restore {previous}"));
            Ok(())
        },
        || {
            log.borrow_mut().push("poll".to_string());
            false
        },
        |context| {
            log.borrow_mut().push("body".to_string());
            (context, ())
        },
    );
    assert!(record.is_ok());
    assert_eq!(*log.borrow(), vec!["install", "body", "restore 17", "poll"]);
}

#[test]
fn failed_install_is_fatal_and_the_body_does_not_run() {
    let log = RefCell::new(Vec::new());
    let result = ignoring_ctrlc(
        || {
            log.borrow_mut().push("install");
            Err::<u32, String>("no handler".to_string())
        },
        |_previous| {
            log.borrow_mut().push("restore");
            Ok(())
        },
        || {
            log.borrow_mut().push("poll");
            false
        },
        |context| {
            log.borrow_mut().push("body");
            (context, ())
        },
    );
    assert_eq!(result, Err("no handler".to_string()));
    assert_eq!(*log.borrow(), vec!["install"]);
}

#[test]
fn failed_restore_is_fatal() {
    let result = ignoring_ctrlc(
        || Ok::<u32, String>(17),
        |_previous| Err("cannot restore".to_string()),
        || false,
        |mut context| {
            context.observe(true);
            (context, 5)
        },
    );
    assert_eq!(result, Err("cannot restore".to_string()));
}

#[test]
fn polling_reads_the_context() {
    let record = ignoring_ctrlc(
        || Ok::<u8, String>(1),
        |_previous| Ok(()),
        || false,
        |mut context| {
            let before: StreamEvent<String> = StreamEvent::polled(&context);
            context.observe(true);
            let after: StreamEvent<String> = StreamEvent::polled(&context);
            (context, (before, after))
        },
    )
    .unwrap();
    assert_eq!(record.output.0, StreamEvent::Polled { cancelled: false });
    assert_eq!(record.output.1, StreamEvent::Polled { cancelled: true });
}

#[test]
fn interrupt_at_the_very_end_is_recorded() {
    let record = ignoring_ctrlc(
        || Ok::<u8, String>(1),
        |_previous| Ok(()),
        || true,
        |mut context| {
            context.observe(false);
            let seen = context.has_received_ctrlc();
            (context, seen)
        },
    )
    .unwrap();
    assert_eq!(record, CtrlCIgnoredOutput { has_received_ctrlc: true, output: false });
}

#[test]
fn source_is_not_looked_at_after_a_failed_restore() {
    let log = RefCell::new(Vec::new());
    let result = ignoring_ctrlc(
        || {
            log.borrow_mut().push("install");
            Ok::<u32, String>(17)
        },
        |_previous| {
            log.borrow_mut().push("restore");
            Err("cannot restore".to_string())
        },
        || {
            log.borrow_mut().push("poll");
            true
        },
        |context| {
            log.borrow_mut().push("body");
            (context, 1u8)
        },
    );
    assert_eq!(result, Err("cannot restore".to_string()));
    assert_eq!(*log.borrow(), vec!["install", "body", "restore"]);
}

/// Takes the context that an activation hands to its body.
fn started() -> (Activation<u32, u8>, esp32_samples_reader::ctrlc::CtrlCIgnoredContext) {
    let (running, asked) =
        Activation::<u32, u8>::new().step(ActivationEvent::<u32, u8, String>::Installed(Ok(17)));
    assert_eq!(running, Activation::Running { previous: 17 });
    match asked {
        ActivationAction::RunBody(context) => {
            assert!(!context.has_received_ctrlc());
            (running, context)
        }
        other => panic!("unexpected action: {other:?}"),
    }
}

#[test]
fn activation_step_by_step() {
    let (running, mut context) = started();
    context.observe(true);
    let (restoring, asked) =
        running.step(ActivationEvent::<u32, u8, String>::BodyFinished(context, 5));
    assert_eq!(asked, ActivationAction::Restore(17));
    let (recording, asked) = restoring.step(ActivationEvent::<u32, u8, String>::Restored(Ok(())));
    assert_eq!(asked, ActivationAction::Poll);
    let (finished, asked) = recording.step(ActivationEvent::<u32, u8, String>::Polled(false));
    assert_eq!(
        asked,
        ActivationAction::Finish(Ok(CtrlCIgnoredOutput { has_received_ctrlc: true, output: 5 }))
    );
    assert_eq!(finished, Activation::Finished);
}

#[test]
fn activation_without_interrupt_records_none() {
    let (running, context) = started();
    let (restoring, _) =
        running.step(ActivationEvent::<u32, u8, String>::BodyFinished(context, 5));
    let (recording, _) = restoring.step(ActivationEvent::<u32, u8, String>::Restored(Ok(())));
    let (_, asked) = recording.step(ActivationEvent::<u32, u8, String>::Polled(false));
    assert_eq!(
        asked,
        ActivationAction::Finish(Ok(CtrlCIgnoredOutput { has_received_ctrlc: false, output: 5 }))
    );
}

#[test]
fn activation_ends_at_once_when_the_handler_cannot_be_put_in_place() {
    let (state, asked) = Activation::<u32, u8>::new()
        .step(ActivationEvent::Installed(Err("no handler".to_string())));
    assert_eq!(asked, ActivationAction::Finish(Err("no handler".to_string())));
    assert_eq!(state, Activation::Finished);
    let (state, asked) = state.step(ActivationEvent::<u32, u8, String>::Polled(true));
    assert_eq!(asked, ActivationAction::Ignore);
    assert_eq!(state, Activation::Finished);
}

#[test]
fn activation_ends_at_once_when_the_handler_cannot_be_taken_out() {
    let (running, context) = started();
    let (restoring, _) =
        running.step(ActivationEvent::<u32, u8, String>::BodyFinished(context, 5));
    let (state, asked) =
        restoring.step(ActivationEvent::Restored(Err("cannot restore".to_string())));
    assert_eq!(asked, ActivationAction::Finish(Err("cannot restore".to_string())));
    assert_eq!(state, Activation::Finished);
}

#[test]
fn activation_ignores_events_out_of_turn() {
    let (state, asked) =
        Activation::<u32, u8>::new().step(ActivationEvent::<u32, u8, String>::Restored(Ok(())));
    assert_eq!(asked, ActivationAction::Ignore);
    assert_eq!(state, Activation::Installing);
    let (running, _context) = started();
    let (state, asked) = running.step(ActivationEvent::<u32, u8, String>::Polled(true));
    assert_eq!(asked, ActivationAction::Ignore);
    assert_eq!(state, Activation::Running { previous: 17 });
    let (state, asked) = state.step(ActivationEvent::<u32, u8, String>::Installed(Ok(3)));
    assert_eq!(asked, ActivationAction::Ignore);
    assert_eq!(state, Activation::Running { previous: 17 });
}
