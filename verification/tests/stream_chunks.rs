use remouseable::app::AppError;
use remouseable::pen::PenRuntimeError;
use remouseable::runtime::RuntimeError;
use remouseable::ssh::{remote_failure, ChunkBuffer};

#[test]
fn chunks_are_handed_out_in_order_across_reads() {
    let mut buffer = ChunkBuffer::new();
    assert!(buffer.needs_chunk());
    buffer.accept(vec![1, 2, 3, 4, 5]);
    assert!(!buffer.needs_chunk());

    let mut output = [9_u8; 3];
    assert_eq!(buffer.copy_into(&mut output), 3);
    assert_eq!(output, [1, 2, 3]);

    let mut output = [9_u8; 4];
    assert_eq!(buffer.copy_into(&mut output), 2);
    assert_eq!(output, [4, 5, 9, 9]);
    assert!(buffer.needs_chunk());

    buffer.accept(Vec::new());
    assert!(buffer.needs_chunk());
    buffer.accept(vec![6]);
    let mut output = [0_u8; 0];
    assert_eq!(buffer.copy_into(&mut output), 0);
    let mut output = [0_u8; 1];
    assert_eq!(buffer.copy_into(&mut output), 1);
    assert_eq!(output, [6]);
}

#[test]
fn failed_remote_commands_are_described() {
    assert_eq!(
        remote_failure(Some(1), "  cat: /dev/input/event9: No such file\n").as_deref(),
        Some("remote event command failed with status 1: cat: /dev/input/event9: No such file")
    );
    assert_eq!(remote_failure(Some(0), "noise"), None);
    assert_eq!(remote_failure(None, "noise"), None);
}

#[test]
fn errors_name_what_failed() {
    let source: RuntimeError<std::io::Error> = RuntimeError::Source(std::io::Error::other("x"));
    assert_eq!(source.context(), "event source failed");
    let driver: RuntimeError<()> = RuntimeError::Driver(());
    assert_eq!(driver.context(), "host driver failed");
    let pen: PenRuntimeError<()> = PenRuntimeError::Driver(());
    assert_eq!(pen.context(), "pen driver failed");
    let pen: PenRuntimeError<()> = PenRuntimeError::Source(std::io::Error::other("x"));
    assert_eq!(pen.context(), "pen source failed");
    assert_eq!(
        AppError::Input(std::io::Error::other("x")).context(),
        "input stream failed"
    );
    assert_eq!(
        AppError::Output(std::io::Error::other("x")).context(),
        "output stream failed"
    );
    assert_eq!(AppError::Runtime(source).context(), "event source failed");
}
