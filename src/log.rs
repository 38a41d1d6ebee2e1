use vstd::prelude::*;

verus! {

/// The severity of a console line.
#[derive(Clone, Copy, PartialEq, Eq, Structural, Debug)]
pub enum LogKind {
    Info,
    Warn,
    Error,
    Success,
}

/// The background colour code of a severity.
pub open spec fn color_code(kind: LogKind) -> Seq<char> {
    match kind {
        LogKind::Info => "104"@,
        LogKind::Warn => "103"@,
        LogKind::Error => "101"@,
        LogKind::Success => "102"@,
    }
}

/// The three-letter tag of a severity.
pub open spec fn tag(kind: LogKind) -> Seq<char> {
    match kind {
        LogKind::Info => "inf"@,
        LogKind::Warn => "wrn"@,
        LogKind::Error => "err"@,
        LogKind::Success => "suc"@,
    }
}

/// A console line: the tag on the severity's colour, the context on white, then a bar of
/// the severity's colour and the message.
pub open spec fn log_line(kind: LogKind, ctx: Seq<char>, message: Seq<char>) -> Seq<char> {
    "\x1b[1;37;"@ + color_code(kind) + "m  "@ + tag(kind) + "  \x1b[0m"@ + "\x1b[37;107m  "@
        + ctx + "  \x1b[0m"@ + "\x1b[37;"@ + color_code(kind) + "m   \x1b[0m "@ + message
}

fn color(kind: LogKind) -> (r: &'static str)
    ensures
        r@ == color_code(kind),
{
    match kind {
        LogKind::Info => "104",
        LogKind::Warn => "103",
        LogKind::Error => "101",
        LogKind::Success => "102",
    }
}

fn prefix(kind: LogKind) -> (r: &'static str)
    ensures
        r@ == tag(kind),
{
    match kind {
        LogKind::Info => "inf",
        LogKind::Warn => "wrn",
        LogKind::Error => "err",
        LogKind::Success => "suc",
    }
}

/// Builds the console line for `message` about `ctx`.
pub fn log(kind: LogKind, ctx: &str, message: &str) -> (r: String)
    ensures
        r@ == log_line(kind, ctx@, message@),
{
    let mut line = String::from_str("\x1b[1;37;");
    line.append(color(kind));
    line.append("m  ");
    line.append(prefix(kind));
    line.append("  \x1b[0m");
    line.append("\x1b[37;107m  ");
    line.append(ctx);
    line.append("  \x1b[0m");
    line.append("\x1b[37;");
    line.append(color(kind));
    line.append("m   \x1b[0m ");
    line.append(message);
    line
}

/// An informational line.
pub fn info(ctx: &str, message: &str) -> (r: String)
    ensures
        r@ == log_line(LogKind::Info, ctx@, message@),
{
    log(LogKind::Info, ctx, message)
}

/// A warning line.
pub fn warn(ctx: &str, message: &str) -> (r: String)
    ensures
        r@ == log_line(LogKind::Warn, ctx@, message@),
{
    log(LogKind::Warn, ctx, message)
}

/// An error line.
pub fn error(ctx: &str, message: &str) -> (r: String)
    ensures
        r@ == log_line(LogKind::Error, ctx@, message@),
{
    log(LogKind::Error, ctx, message)
}

/// A success line.
pub fn success(ctx: &str, message: &str) -> (r: String)
    ensures
        r@ == log_line(LogKind::Success, ctx@, message@),
{
    log(LogKind::Success, ctx, message)
}

} // verus!
