use pumpkin_net::console::route_console_line;
use pumpkin_net::console::CommandSender;
use pumpkin_net::reactor::accept_failure_action;
use pumpkin_net::reactor::poll_failure_action;
use pumpkin_net::reactor::AcceptFailureAction;
use pumpkin_net::reactor::IoErrorKind;
use pumpkin_net::reactor::PollFailureAction;

#[test]
fn stop_line_is_forwarded_verbatim_from_the_console() {
    let call = route_console_line(String::from("stop\n")).expect("non-empty line owes a call");
    assert_eq!(call.sender, CommandSender::Console);
    assert_eq!(call.text, "stop\n");
}

#[test]
fn empty_line_invokes_nothing() {
    assert!(route_console_line(String::new()).is_none());
}

#[test]
fn bare_newline_invokes_nothing() {
    assert!(route_console_line(String::from("\n")).is_none());
}

#[test]
fn line_without_newline_is_forwarded_too() {
    let call = route_console_line(String::from("help")).expect("non-empty line owes a call");
    assert_eq!(call.sender, CommandSender::Console);
    assert_eq!(call.text, "help");
}

#[test]
fn interrupted_poll_is_retried_all_else_aborts() {
    assert_eq!(poll_failure_action(IoErrorKind::Interrupted), PollFailureAction::Retry);
    assert_eq!(poll_failure_action(IoErrorKind::WouldBlock), PollFailureAction::Abort);
    assert_eq!(poll_failure_action(IoErrorKind::Other), PollFailureAction::Abort);
}

#[test]
fn empty_backlog_ends_the_drain_all_else_aborts() {
    assert_eq!(accept_failure_action(IoErrorKind::WouldBlock), AcceptFailureAction::EndDrain);
    assert_eq!(accept_failure_action(IoErrorKind::Interrupted), AcceptFailureAction::Abort);
    assert_eq!(accept_failure_action(IoErrorKind::Other), AcceptFailureAction::Abort);
}
