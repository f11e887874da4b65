use ghciwatch::ghci::progress_writer::{
    progress_line, truncate_to_terminal_width, ProgressAction, ProgressState,
};

/// Drives a `ProgressState` as the writer does: bytes written, then everything pending forwarded.
struct Harness {
    state: ProgressState,
    output: Vec<u8>,
    actions: Vec<ProgressAction>,
}

impl Harness {
    fn new(render_progress: bool) -> Self {
        Harness {
            state: ProgressState::new(render_progress),
            output: Vec::new(),
            actions: Vec::new(),
        }
    }

    fn flush_pending(&mut self) {
        let pending = self.state.pending_output().clone();
        self.output.extend_from_slice(&pending);
        self.state.consume_pending(pending.len());
    }

    fn write_all(&mut self, buf: &[u8]) {
        self.flush_pending();
        let (through, actions) = self.state.accept(buf);
        if through {
            self.output.extend_from_slice(buf);
        }
        self.actions.extend(actions);
        self.flush_pending();
    }

    fn shutdown(&mut self) {
        if self.state.shutdown() {
            self.actions.push(ProgressAction::Clear);
        }
        self.flush_pending();
    }
}

#[test]
fn non_compiling_lines_pass_through() {
    let mut pw = Harness::new(false);
    pw.write_all(b"some error output\n");
    assert_eq!(pw.output, b"some error output\n");
}

#[test]
fn compiling_lines_suppressed_on_tty() {
    let mut pw = Harness::new(true);
    pw.write_all(b"[1 of 3] Compiling Foo ( Foo.hs, interpreted )\n");
    pw.write_all(b"some other output\n");
    assert_eq!(pw.output, b"some other output\n");
    assert_eq!(
        pw.actions,
        vec![
            ProgressAction::Render {
                current: 1,
                total: 3,
                module: "Foo".to_owned()
            },
            ProgressAction::Clear,
        ]
    );
}

#[test]
fn render_disabled_passes_all_lines_through() {
    let mut pw = Harness::new(false);
    pw.write_all(b"[1 of 3] Compiling Foo ( Foo.hs, interpreted )\n");
    assert_eq!(pw.output, b"[1 of 3] Compiling Foo ( Foo.hs, interpreted )\n");
    assert!(pw.actions.is_empty());
}

#[test]
fn partial_line_buffering() {
    let mut pw = Harness::new(true);
    pw.write_all(b"[1 of 3] Compil");
    pw.write_all(b"ing Foo ( Foo.hs, interpreted )\n");
    pw.write_all(b"error line\n");
    assert_eq!(pw.output, b"error line\n");
}

#[test]
fn multiple_progress_lines_suppressed() {
    let mut pw = Harness::new(true);
    pw.write_all(b"[1 of 5] Compiling A ( A.hs )\n");
    pw.write_all(b"[2 of 5] Compiling B ( B.hs )\n");
    pw.write_all(b"[3 of 5] Compiling C ( C.hs )\n");
    pw.write_all(b"Ok, 5 modules loaded.\n");
    assert_eq!(pw.output, b"Ok, 5 modules loaded.\n");
    assert_eq!(pw.actions.len(), 4);
}

#[test]
fn padded_progress_numbers() {
    let mut pw = Harness::new(true);
    pw.write_all(b"[   1 of 6508] Compiling A.Foo ( src/A/Foo.hs )\n");
    pw.write_all(b"done\n");
    assert_eq!(pw.output, b"done\n");
    assert_eq!(
        pw.actions[0],
        ProgressAction::Render {
            current: 1,
            total: 6508,
            module: "A.Foo".to_owned()
        }
    );
}

#[test]
fn ansi_escapes_in_compiling_lines() {
    let mut pw = Harness::new(true);
    pw.write_all(b"\x1b[0m[1 of 3] Compiling Foo ( Foo.hs, interpreted )\x1b[0m\n");
    pw.write_all(b"error output\n");
    assert_eq!(pw.output, b"error output\n");
}

#[test]
fn error_after_progress_passes_through() {
    let mut pw = Harness::new(true);
    pw.write_all(b"[1 of 2] Compiling MyLib ( src/MyLib.hs )\n");
    pw.write_all(b"[2 of 2] Compiling MyModule ( src/MyModule.hs )\n");
    pw.write_all(b"\nsrc/MyModule.hs:4:11: error:\n    Type mismatch\n");
    pw.write_all(b"Failed, one module loaded.\n");
    assert_eq!(
        std::str::from_utf8(&pw.output).unwrap(),
        "\nsrc/MyModule.hs:4:11: error:\n    Type mismatch\nFailed, one module loaded.\n"
    );
}

#[test]
fn error_between_progress_lines() {
    let mut pw = Harness::new(true);
    pw.write_all(b"[1 of 3] Compiling A ( A.hs )\n");
    pw.write_all(b"src/A.hs:1:1: warning: Missing signature\n");
    pw.write_all(b"[2 of 3] Compiling B ( B.hs )\n");
    pw.write_all(b"Ok, 3 modules loaded.\n");
    assert_eq!(
        std::str::from_utf8(&pw.output).unwrap(),
        "src/A.hs:1:1: warning: Missing signature\nOk, 3 modules loaded.\n"
    );
}

#[test]
fn incremental_reader_style_writes() {
    let mut pw = Harness::new(true);
    pw.write_all(b"[1 of 3] Compiling Foo ( Foo.hs )");
    pw.write_all(b"\n");
    pw.write_all(b"other output");
    pw.write_all(b"\n");
    assert_eq!(pw.output, b"other output\n");
}

#[test]
fn shutdown_forwards_partial_line_and_clears() {
    let mut pw = Harness::new(true);
    pw.write_all(b"[1 of 3] Compiling Foo ( Foo.hs )\n");
    pw.write_all(b"no newline yet");
    assert!(pw.output.is_empty());
    pw.shutdown();
    assert_eq!(pw.output, b"no newline yet");
    assert_eq!(pw.actions.last(), Some(&ProgressAction::Clear));
}

#[test]
fn progress_text() {
    assert_eq!(progress_line(3, 10, "My.Module"), "[3/10] Compiling My.Module");
    assert_eq!(truncate_to_terminal_width("hello", 10), "hello");
    assert_eq!(truncate_to_terminal_width("hello", 3), "hel");
    // Never splits a character.
    assert_eq!(truncate_to_terminal_width("héllo", 2), "h");
    assert_eq!(truncate_to_terminal_width("héllo", 3), "hé");
    assert_eq!(truncate_to_terminal_width("", 0), "");
}

#[test]
fn invalid_utf8_in_progress_lines() {
    let mut pw = Harness::new(true);
    pw.write_all(b"[2 of 3] Compiling Foo ( src/F\xffoo.hs, interpreted )\n");
    pw.write_all(b"bad \xff byte\n");
    assert_eq!(pw.output, b"bad \xff byte\n");
    assert_eq!(
        pw.actions,
        vec![
            ProgressAction::Render {
                current: 2,
                total: 3,
                module: "Foo".to_owned()
            },
            ProgressAction::Clear,
        ]
    );
}
