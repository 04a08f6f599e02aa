use petsona::ffi::{
    check_abi_version, command_kind, copy_bytes, decode_command, field_text, home_dir,
    runtime_status, text_field, DecodedCommand, LastError, PetsonaCommandKind, PetsonaStatus,
    PetsonaTextField, ABI_VERSION,
};
use petsona::runtime::{RuntimeTextField, RuntimeTexts};

#[test]
fn invalid_command_is_rejected_without_touching_the_worker() {
    let mut last_error = LastError::new();
    match decode_command(999, false, 0, String::new()) {
        Err((status, message)) => {
            assert_eq!(status, PetsonaStatus::InvalidArgument);
            last_error.set(message);
        }
        Ok(command) => panic!("decoded {command:?}"),
    }
    let (required, written) = last_error.copy(false, 0);
    assert!(required > 0);
    assert!(written.is_empty());
    assert_eq!(last_error.get(), "unknown command kind: 999");
}

#[test]
fn text_fields_decode_to_their_runtime_projection() {
    assert_eq!(text_field(0), Some((PetsonaTextField::State, RuntimeTextField::State)));
    assert_eq!(text_field(5), Some((PetsonaTextField::Error, RuntimeTextField::Error)));
    assert_eq!(
        text_field(16),
        Some((PetsonaTextField::ImportConflict, RuntimeTextField::ImportConflict))
    );
    assert_eq!(text_field(17), Some((PetsonaTextField::Models, RuntimeTextField::Models)));
    assert_eq!(text_field(18), None);
    for code in 0..18u32 {
        let (field, _) = text_field(code).expect("known field");
        assert_eq!(field.code(), code);
    }
}

#[test]
fn command_kinds_round_trip_through_their_numbers() {
    assert_eq!(command_kind(0), None);
    assert_eq!(command_kind(37), None);
    assert_eq!(command_kind(20), Some(PetsonaCommandKind::SetGazeTarget));
    for code in 1..=36u32 {
        assert_eq!(command_kind(code).expect("known kind").code(), code);
    }
}

#[test]
fn statuses_keep_their_abi_numbers() {
    assert_eq!(PetsonaStatus::Success.code(), 0);
    assert_eq!(PetsonaStatus::InvalidArgument.code(), 1);
    assert_eq!(PetsonaStatus::Stopped.code(), 7);
}

#[test]
fn terminal_error_outranks_a_runtime_fault() {
    assert_eq!(runtime_status(true, true), PetsonaStatus::Panic);
    assert_eq!(runtime_status(false, true), PetsonaStatus::RuntimeFailed);
    assert_eq!(runtime_status(false, false), PetsonaStatus::Success);
}

#[test]
fn abi_version_zero_or_current() {
    assert_eq!(ABI_VERSION, 3);
    assert!(check_abi_version(0).is_ok());
    assert!(check_abi_version(3).is_ok());
    assert_eq!(check_abi_version(2).unwrap_err(), "unsupported ABI version 2; expected 3");
}

#[test]
fn blank_home_means_default() {
    assert_eq!(home_dir("  ".to_string()), None);
    assert_eq!(home_dir(" /tmp/x".to_string()), Some(" /tmp/x".to_string()));
}

#[test]
fn positions_are_split_and_trimmed() {
    match decode_command(7, false, 0, " 12.5 , -3 ".to_string()) {
        Ok(DecodedCommand::SetPosition { x, y }) => {
            assert_eq!(x, "12.5");
            assert_eq!(y, "-3");
        }
        other => panic!("unexpected {other:?}"),
    }
    let (status, message) = decode_command(7, false, 0, "12".to_string()).unwrap_err();
    assert_eq!(status, PetsonaStatus::InvalidArgument);
    assert_eq!(message, "position must be encoded as x,y");
    let (_, message) = decode_command(20, false, 0, "".to_string()).unwrap_err();
    assert_eq!(message, "gaze target must be encoded as dx,dy");
}

#[test]
fn exports_split_at_the_first_newline() {
    match decode_command(13, false, 0, "pet\n/tmp/a\nb".to_string()) {
        Ok(DecodedCommand::ExportPet { id, path }) => {
            assert_eq!(id, "pet");
            assert_eq!(path, "/tmp/a\nb");
        }
        other => panic!("unexpected {other:?}"),
    }
    let (_, message) = decode_command(34, false, 0, "only-id".to_string()).unwrap_err();
    assert_eq!(message, "persona export must be encoded as id\\npath");
    let (_, message) = decode_command(13, false, 0, "only-id".to_string()).unwrap_err();
    assert_eq!(message, "export must be encoded as id\\npath");
}

#[test]
fn bubble_and_state_times() {
    match decode_command(5, false, 0, "hi".to_string()) {
        Ok(DecodedCommand::ShowBubble { text, duration_ms }) => {
            assert_eq!(text, "hi");
            assert_eq!(duration_ms, 8000);
        }
        other => panic!("unexpected {other:?}"),
    }
    match decode_command(5, false, 1500, "hi".to_string()) {
        Ok(DecodedCommand::ShowBubble { duration_ms, .. }) => assert_eq!(duration_ms, 1500),
        other => panic!("unexpected {other:?}"),
    }
    match decode_command(4, false, 0, "running".to_string()) {
        Ok(DecodedCommand::SetState { name, ttl_ms }) => {
            assert_eq!(name, "running");
            assert_eq!(ttl_ms, None);
        }
        other => panic!("unexpected {other:?}"),
    }
    match decode_command(4, false, 120_000, "look-row-10".to_string()) {
        Ok(DecodedCommand::SetState { ttl_ms, .. }) => assert_eq!(ttl_ms, Some(120_000)),
        other => panic!("unexpected {other:?}"),
    }
}

#[test]
fn unknown_pet_states_are_refused() {
    let (status, message) = decode_command(4, false, 0, "bogus".to_string()).unwrap_err();
    assert_eq!(status, PetsonaStatus::InvalidArgument);
    assert_eq!(message, "unknown pet state: bogus");
    assert!(decode_command(4, false, 0, "Idle".to_string()).is_err());
}

#[test]
fn switches_follow_the_value_and_greeting_settings_are_not_decoded() {
    assert!(matches!(decode_command(1, true, 0, String::new()), Ok(DecodedCommand::SetVisibility(true))));
    assert!(matches!(
        decode_command(12, true, 0, "/p".to_string()),
        Ok(DecodedCommand::ImportPet { overwrite: true, .. })
    ));
    let (_, message) = decode_command(36, false, 0, "{}".to_string()).unwrap_err();
    assert_eq!(message, "unknown command kind: 36");
}

#[test]
fn copies_stop_at_the_buffer() {
    assert_eq!(copy_bytes(b"hello", true, 3), (5, b"hel".to_vec()));
    assert_eq!(copy_bytes(b"hello", true, 10), (5, b"hello".to_vec()));
    assert_eq!(copy_bytes(b"hello", false, 10), (5, Vec::new()));
    assert_eq!(copy_bytes(b"hello", true, 0), (5, Vec::new()));
}

#[test]
fn last_error_is_set_cleared_and_copied_as_utf8() {
    let mut e = LastError::new();
    e.set("错误".to_string());
    assert_eq!(e.copy(true, 64), (6, "错误".as_bytes().to_vec()));
    e.clear();
    assert_eq!(e.get(), "");
}

#[test]
fn terminal_error_replaces_the_error_text_only() {
    let texts = RuntimeTexts {
        error: "runtime".to_string(),
        status: "ok".to_string(),
        ..RuntimeTexts::default()
    };
    let terminal = Some("panic".to_string());
    assert_eq!(field_text(RuntimeTextField::Error, &terminal, &texts), "panic");
    assert_eq!(field_text(RuntimeTextField::Status, &terminal, &texts), "ok");
    assert_eq!(field_text(RuntimeTextField::Error, &None, &texts), "runtime");
}
