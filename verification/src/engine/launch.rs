//! What to launch for a process configuration: the program, its arguments,
//! the working directory and the environment.

use crate::error::{Result, SentinelError, SentinelErrorView};
use crate::models::config::{clone_env, clone_strings, ProcessConfig, ProcessConfigView};
use crate::text::{char_is_ascii_whitespace, chars_of, is_ascii_whitespace, push_char, push_text};
use vstd::prelude::*;

verus! {

/// The words of a text: its longest runs of characters that are not ASCII
/// white space, in order.
pub open spec fn words(text: Seq<char>) -> Seq<Seq<char>>
    decreases text.len(),
{
    if text.len() == 0 {
        Seq::empty()
    } else {
        let before = words(text.drop_last());
        let c = text.last();
        if is_ascii_whitespace(c) {
            before
        } else if text.len() >= 2 && !is_ascii_whitespace(text[text.len() - 2]) {
            before.drop_last().push(before.last().push(c))
        } else {
            before.push(seq![c])
        }
    }
}

/// Splits a text into its words at ASCII white space. Quotes and escapes
/// have no special meaning.
pub fn split_words(text: &str) -> (tokens: Vec<String>)
    ensures
        tokens.deep_view() == words(text@),
{
    let chars = chars_of(text);
    let mut out: Vec<String> = Vec::new();
    let mut current = String::new();
    let mut in_word = false;
    let mut i: usize = 0;
    while i < chars.len()
        invariant
            i <= chars.len(),
            in_word <==> (i > 0 && !is_ascii_whitespace(chars@[i - 1])),
            in_word ==> words(chars@.take(i as int)) == out.deep_view().push(current@),
            !in_word ==> words(chars@.take(i as int)) == out.deep_view(),
            !in_word ==> current@.len() == 0,
        decreases chars.len() - i,
    {
        let c = chars[i];
        let ghost done = out.deep_view();
        let ghost word = current@;
        proof {
            assert(chars@.take(i + 1).drop_last() =~= chars@.take(i as int));
            assert(chars@.take(i + 1).last() == c);
            if i > 0 {
                assert(chars@.take(i + 1)[i - 1] == chars@[i - 1]);
            }
        }
        if char_is_ascii_whitespace(c) {
            if in_word {
                out.push(current);
                current = String::new();
                in_word = false;
                assert(out.deep_view() =~= done.push(word));
            }
        } else {
            push_char(&mut current, c);
            if in_word {
                assert(done.push(word).drop_last().push(done.push(word).last().push(c)) =~= done.push(
                    current@,
                ));
            } else {
                assert(current@ =~= seq![c]);
            }
            in_word = true;
        }
        i = i + 1;
    }
    assert(chars@.take(i as int) =~= chars@);
    if in_word {
        let ghost done = out.deep_view();
        let ghost word = current@;
        out.push(current);
        assert(out.deep_view() =~= done.push(word));
    }
    out
}

/// What the supervisor asks the operating system to launch.
#[derive(Debug)]
pub struct LaunchPlan {
    /// The program to run.
    pub program: String,
    /// The arguments handed to the program.
    pub args: Vec<String>,
    /// The working directory, where the configuration names one.
    pub cwd: Option<String>,
    /// The variables laid over the inherited environment, in the order in
    /// which they are applied.
    pub env: Vec<(String, String)>,
}

/// What a launch plan holds, as plain values.
pub struct LaunchPlanView {
    pub program: Seq<char>,
    pub args: Seq<Seq<char>>,
    pub cwd: Option<Seq<char>>,
    pub env: Seq<(Seq<char>, Seq<char>)>,
}

impl View for LaunchPlan {
    type V = LaunchPlanView;

    open spec fn view(&self) -> LaunchPlanView {
        LaunchPlanView {
            program: self.program@,
            args: self.args.deep_view(),
            cwd: self.cwd.deep_view(),
            env: self.env.deep_view(),
        }
    }
}

/// The program and the arguments that a configuration stands for: its
/// command and arguments as they are where it has arguments, else the first
/// word of its command and the words after it. `None` where the command has
/// no word.
pub open spec fn command_line(config: ProcessConfigView) -> Option<(Seq<char>, Seq<Seq<char>>)> {
    if config.args.len() > 0 {
        Some((config.command, config.args))
    } else if words(config.command).len() == 0 {
        None
    } else {
        Some((words(config.command)[0], words(config.command).skip(1)))
    }
}

/// The launch plan that a configuration stands for, if its command names a
/// program.
pub open spec fn launch_plan_of(config: ProcessConfigView) -> Option<LaunchPlanView> {
    match command_line(config) {
        Some((program, args)) => Some(
            LaunchPlanView { program, args, cwd: config.cwd, env: config.env },
        ),
        None => None,
    }
}

/// The error that reports a command without a word.
pub open spec fn empty_command_error(name: Seq<char>) -> SentinelErrorView {
    SentinelErrorView::InvalidConfig { reason: "Empty command for process '"@ + name + "'"@ }
}

/// The error that reports a configuration without a name.
pub open spec fn empty_name_error() -> SentinelErrorView {
    SentinelErrorView::InvalidConfig { reason: "Process name cannot be empty"@ }
}

/// Why nothing can be launched for a configuration, if so: it has no name,
/// or, checked after that, its command names no program.
pub open spec fn launch_refusal(config: ProcessConfigView) -> Option<SentinelErrorView> {
    if config.name.len() == 0 {
        Some(empty_name_error())
    } else if launch_plan_of(config) is None {
        Some(empty_command_error(config.name))
    } else {
        None
    }
}

/// The error that reports a configuration without a name.
pub fn empty_name() -> (e: SentinelError)
    ensures
        e@ == empty_name_error(),
{
    SentinelError::InvalidConfig { reason: "Process name cannot be empty".to_owned() }
}

/// Works out what to launch for a configuration.
///
/// Refuses with `InvalidConfig` a configuration whose name is empty, and one
/// that has no arguments and whose command has no word.
pub fn plan_launch(config: &ProcessConfig) -> (r: Result<LaunchPlan>)
    ensures
        match launch_refusal(config@) {
            Some(refusal) => r matches Err(e) && e@ == refusal,
            None => r matches Ok(made) && Some(made@) == launch_plan_of(config@),
        },
        config@.name.len() == 0 ==> (r matches Err(e) && e@ is InvalidConfig),
{
    if config.name.as_str().is_empty() {
        return Err(empty_name());
    }
    let cwd = config.cwd.clone();
    let env = clone_env(&config.env);
    if config.args.len() > 0 {
        return Ok(
            LaunchPlan { program: config.command.clone(), args: clone_strings(&config.args), cwd, env },
        );
    }
    let mut tokens = split_words(config.command.as_str());
    if tokens.len() == 0 {
        let mut reason = String::new();
        push_text(&mut reason, "Empty command for process '");
        push_text(&mut reason, config.name.as_str());
        push_text(&mut reason, "'");
        assert(reason@ =~= "Empty command for process '"@ + config@.name + "'"@);
        return Err(SentinelError::InvalidConfig { reason });
    }
    let ghost all = tokens.deep_view();
    let program = tokens.remove(0);
    assert(tokens.deep_view() =~= all.skip(1));
    Ok(LaunchPlan { program, args: tokens, cwd, env })
}

} // verus!
