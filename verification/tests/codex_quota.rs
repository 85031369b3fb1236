use workmux::command::codex_quota::{is_quota_interruption, is_quota_screen_text};

const ERROR: &str = "■ You've hit your usage limit. Visit https://chatgpt.com/codex/settings/usage to purchase more credits or try again at Sep 15th, 2026 1:22 AM.";

fn screen(body: &str, composer: &str) -> String {
    format!("{body}\n\n{composer}\n\n  gpt-6-astra high · ~/project")
}

#[test]
fn recognizes_quota_with_missing_stop_hook_and_wrapping() {
    assert!(is_quota_interruption(&screen(ERROR, "›")));
    assert!(is_quota_interruption(&screen(
        &format!("Prior output\n{ERROR}"),
        "›"
    )));
    let wrapped = ERROR.replace("to purchase", "\n  to purchase");
    assert!(is_quota_interruption(&screen(
        &format!("• Review is underway.\n\n\x1b[31m{wrapped}\x1b[0m"),
        "› Ask Codex to do anything"
    )));
}

#[test]
fn quota_history_does_not_override_progress_or_user_input() {
    for next in [
        "• Working (14s • esc to interrupt)",
        "• Implemented the fix.",
        "■ Conversation interrupted - tell the model what to do differently.",
        "• Explored\n  └ Read AGENTS.md",
    ] {
        for separator in ["\n", "\n\n"] {
            assert!(!is_quota_interruption(&screen(
                &format!("{ERROR}{separator}{next}"),
                "›"
            )));
        }
    }
    for composer in [
        "› Do not continue",
        "› continue",
        "› Ask Codex to do anything else",
    ] {
        assert!(!is_quota_interruption(&screen(ERROR, composer)));
    }
}

#[test]
fn incomplete_or_quoted_error_is_not_a_quota_wait() {
    for body in [
        "",
        "You've hit your usage limit.",
        "■ You've hit your usage limit.",
    ] {
        assert!(!is_quota_interruption(&screen(body, "›")));
    }
    assert!(!is_quota_interruption(&screen(&format!("> {ERROR}"), "›")));
    assert!(!is_quota_interruption(ERROR));
    assert!(!is_quota_interruption(&format!(
        "{}\n• Working (1s)",
        screen(ERROR, "›")
    )));
}

#[test]
fn escape_codes_are_stripped_before_the_screen_is_read() {
    let colored = screen(&format!("\x1b[1m{ERROR}\x1b[0m"), "\x1b[2m›\x1b[0m");
    assert!(is_quota_interruption(&colored));
    assert!(!is_quota_screen_text(&colored));
}

#[test]
fn crlf_line_endings_and_a_second_footer_line() {
    assert!(is_quota_screen_text(&screen(ERROR, "›").replace('\n', "\r\n")));
    assert!(!is_quota_screen_text(&format!("{}\nextra", screen(ERROR, "›"))));
    assert!(!is_quota_screen_text(&format!("{ERROR}\n\n›\n\n  llama-3 · ~/project")));
}

#[test]
fn scrollback_above_cannot_undo_a_quota_wait() {
    let current = screen(ERROR, "›");
    for above in ["", "› earlier prompt", "■ older error\n• Working (3s)", "gpt-4 · ~/x"] {
        assert!(is_quota_interruption(&format!("{above}\n{current}")));
    }
}

#[test]
fn any_output_below_the_footer_defeats_it() {
    let current = screen(ERROR, "›");
    for below in ["x", "  more output ", "›", "gpt-6 · again"] {
        assert!(!is_quota_interruption(&format!("{current}\n{below}")));
    }
    assert!(is_quota_interruption(&format!("{current}\n   ")));
}
