//! The privilege-gated dispatcher and the replies of each action.

use vstd::prelude::*;

use crate::command::{opt_view, split_spec, split_user_cmd, Command};
use crate::error::KappaError;
use crate::number::{i64_text_value, parse_i64, signed_decimal, signed_decimal_string};
use crate::template::{
    bindings_for, first_unknown, found_keys, is_render_error, lacks_variable, order_free,
    render_template, rendered, str_eq, template_renders,
};

verus! {

/// The account that `!give` credits and whose balance the `points` template shows.
pub const OUR_USER_ID: u64 = 75244893;

/// Session-scoped context of the dispatcher.
pub struct State {
    /// When the session started, in seconds on the session's clock.
    pub start: u64,
    /// Whether a quit of the session has been requested.
    pub quit: bool,
}

/// The dispatcher of one session.
pub struct Commands {
    pub state: State,
}

/// What handling a command asks of the session.
#[derive(Debug, PartialEq, Eq)]
pub enum Action {
    /// End the session gracefully.
    Quit,
    /// Send this text as the reply.
    Reply(String),
    /// Delete the template `name` of the channel.
    UnsetTemplate { name: String },
    /// Store `template` as the template `name` of the channel.
    SetTemplate { name: String, template: String },
    /// Credit `amount` points to `account` on the channel, then
    /// announce it to `user` with the `points` template.
    Give { user: String, account: u64, amount: i64 },
    /// List the channel's template names.
    ListCommands,
    /// Render the channel's template `name` for the sender `user_name`.
    Template { name: String, user_name: String, user_id: Option<u64> },
}

/// An action as a mathematical value.
pub enum Step {
    Quit,
    Reply(Seq<char>),
    UnsetTemplate(Seq<char>),
    SetTemplate(Seq<char>, Seq<char>),
    Give(Seq<char>, u64, i64),
    ListCommands,
    Template(Seq<char>, Seq<char>, Option<u64>),
    BadInput(Seq<char>),
}

impl View for Action {
    type V = Step;

    open spec fn view(&self) -> Step {
        match self {
            Action::Quit => Step::Quit,
            Action::Reply(s) => Step::Reply(s@),
            Action::UnsetTemplate { name } => Step::UnsetTemplate(name@),
            Action::SetTemplate { name, template } => Step::SetTemplate(name@, template@),
            Action::Give { user, account, amount } => Step::Give(user@, *account, *amount),
            Action::ListCommands => Step::ListCommands,
            Action::Template { name, user_name, user_id } => Step::Template(
                name@,
                user_name@,
                *user_id,
            ),
        }
    }
}

pub open spec fn set_usage() -> Seq<char> {
    "usage: !set <command> <template>"@
}

pub open spec fn give_usage() -> Seq<char> {
    "usage: !give <user> <number>"@
}

pub open spec fn unset_text(name: Seq<char>, removed: bool) -> Seq<char> {
    if removed {
        name + " has been unset."@
    } else {
        "Was not able to unset '"@ + name + "'"@
    }
}

pub open spec fn set_text(name: Seq<char>, template: Seq<char>, stored: bool) -> Seq<char> {
    if stored {
        "'"@ + name + "' has been set to: "@ + template
    } else {
        "Could not set template for '"@ + name + "'"@
    }
}

pub open spec fn give_failed_text(amount: Seq<char>, user: Seq<char>) -> Seq<char> {
    "Could not give '"@ + amount + "' to '"@ + user + "'"@
}

pub open spec fn missing_text(name: Seq<char>) -> Seq<char> {
    "Unknown command '!"@ + name + "'"@
}

pub open spec fn broken_text(name: Seq<char>) -> Seq<char> {
    "The template of '!"@ + name + "' could not be rendered"@
}

pub open spec fn unbound_text(name: Seq<char>, key: Seq<char>) -> Seq<char> {
    "The template of '!"@ + name + "' has no value for '"@ + key + "'"@
}

pub open spec fn lookup_failed_text(name: Seq<char>) -> Seq<char> {
    "Could not look up '!"@ + name + "'"@
}

pub open spec fn list_failed_text() -> Seq<char> {
    "Could not fetch the list of commands"@
}

/// Names, each after the trigger, joined with `", "`.
pub open spec fn joined_names(names: Seq<Seq<char>>) -> Seq<char>
    decreases names.len(),
{
    if names.len() == 0 {
        Seq::empty()
    } else if names.len() == 1 {
        "!"@ + names[0]
    } else {
        joined_names(names.drop_last()) + ", !"@ + names.last()
    }
}

pub open spec fn list_text(names: Seq<Seq<char>>) -> Seq<char> {
    "Currently available commands: "@ + joined_names(names)
}

/// The owner-only actions: `quit`, `unset <name>`, `set <name> <template>`
/// and `give <user> <amount>`; `None` for any other shape.
pub open spec fn elevated_step(verb: Seq<char>, args: Option<Seq<char>>) -> Option<Step> {
    if verb == "quit"@ && args is None {
        Some(Step::Quit)
    } else if verb == "unset"@ && args is Some {
        Some(Step::UnsetTemplate(args->0))
    } else if verb == "set"@ && args is Some {
        match split_spec(args->0) {
            Some((name, Some(template))) => Some(Step::SetTemplate(name, template)),
            Some((_, None)) => Some(Step::Reply(set_usage())),
            None => None,
        }
    } else if verb == "give"@ && args is Some {
        match split_spec(args->0) {
            Some((user, Some(amount))) => match i64_text_value(amount) {
                Some(v) => Some(Step::Give(user, OUR_USER_ID, v)),
                None => Some(Step::Reply(give_failed_text(amount, user))),
            },
            Some((_, None)) => Some(Step::Reply(give_usage())),
            None => None,
        }
    } else {
        None
    }
}

/// The actions open to everyone: `commands`, a template invocation, or bad input.
pub open spec fn normal_step(
    verb: Seq<char>,
    args: Option<Seq<char>>,
    data: Seq<char>,
    user_name: Seq<char>,
    user_id: Option<u64>,
) -> Step {
    if args is Some {
        Step::BadInput(data)
    } else if verb == "commands"@ {
        Step::ListCommands
    } else {
        Step::Template(verb, user_name, user_id)
    }
}

/// The action that a command asks for: the owner tier first, then the normal one.
pub open spec fn dispatch_step(c: Command) -> Step {
    let args = opt_view(c.args);
    if c.sender.is_owner && elevated_step(c.cmd@, args) is Some {
        elevated_step(c.cmd@, args)->0
    } else {
        normal_step(c.cmd@, args, c.data@, c.sender.name@, c.sender.user_id)
    }
}

/// The result of dispatch as a step.
pub open spec fn result_step(r: Result<Action, KappaError>) -> Option<Step> {
    match r {
        Ok(a) => Some(a@),
        Err(KappaError::BadInput(data)) => Some(Step::BadInput(data@)),
        Err(_) => None,
    }
}

fn concat3(a: &str, b: &str, c: &str) -> (r: String)
    ensures
        r@ == a@ + b@ + c@,
{
    let mut s = String::from_str(a);
    s.append(b);
    s.append(c);
    s
}

fn concat5(a: &str, b: &str, c: &str, d: &str, e: &str) -> (r: String)
    ensures
        r@ == a@ + b@ + c@ + d@ + e@,
{
    let mut s = concat3(a, b, c);
    s.append(d);
    s.append(e);
    s
}

/// Whether a delete removed something: the store answered, and with at least
/// one row.
pub open spec fn removed_any(deleted: Option<u64>) -> bool {
    deleted matches Some(n) && n > 0
}

/// The reply to `!unset name` once the store has answered with the number of
/// rows deleted (`None` when it failed). Deleting a template that does not
/// exist removes nothing and is reported as a failure.
pub fn unset_reply(name: &str, deleted: Option<u64>) -> (r: String)
    ensures
        r@ == unset_text(name@, removed_any(deleted)),
        !removed_any(deleted) ==> r@ == "Was not able to unset '"@ + name@ + "'"@,
{
    proof {
        reveal_strlit(" has been unset.");
        reveal_strlit("Was not able to unset '");
        reveal_strlit("'");
    }
    let removed = match deleted {
        Some(n) => n > 0,
        None => false,
    };
    if removed {
        let mut s = String::from_str(name);
        s.append(" has been unset.");
        s
    } else {
        concat3("Was not able to unset '", name, "'")
    }
}

/// What to send for the `points` announcement that follows a successful
/// `!give`: the rendered text, or nothing when rendering failed, since the
/// points were credited all the same and the failure is only logged.
pub fn announcement_reply(rendered: &Result<String, KappaError>) -> (r: Option<String>)
    ensures
        match rendered {
            Ok(text) => r == Some(*text),
            Err(_) => r is None,
        },
{
    match rendered {
        Ok(text) => Some(text.clone()),
        Err(_) => None,
    }
}

/// The reply to `!set name template` once the store has answered.
pub fn set_reply(name: &str, template: &str, stored: bool) -> (r: String)
    ensures
        r@ == set_text(name@, template@, stored),
{
    proof {
        reveal_strlit("'");
        reveal_strlit("' has been set to: ");
        reveal_strlit("Could not set template for '");
    }
    if stored {
        let mut s = concat3("'", name, "' has been set to: ");
        s.append(template);
        s
    } else {
        concat3("Could not set template for '", name, "'")
    }
}

/// The reply when `amount` could not be given to `user`.
pub fn give_failed_reply(amount: &str, user: &str) -> (r: String)
    ensures
        r@ == give_failed_text(amount@, user@),
{
    proof {
        reveal_strlit("Could not give '");
        reveal_strlit("' to '");
        reveal_strlit("'");
    }
    concat5("Could not give '", amount, "' to '", user, "'")
}

/// The reply to `!commands`: the channel's template names in the store's
/// order, each after the trigger.
pub fn list_reply(names: &Vec<String>) -> (r: String)
    ensures
        r@ == list_text(names@.map_values(|s: String| s@)),
{
    let ghost ns = names@.map_values(|s: String| s@);
    let mut s = String::from_str("Currently available commands: ");
    proof {
        reveal_strlit("Currently available commands: ");
        reveal_strlit(", !");
        reveal_strlit("!");
    }
    let mut i: usize = 0;
    while i < names.len()
        invariant
            i <= names.len(),
            ns == names@.map_values(|s: String| s@),
            s@ == "Currently available commands: "@ + joined_names(ns.subrange(0, i as int)),
        decreases names.len() - i,
    {
        if i > 0 {
            s.append(", !");
        } else {
            s.append("!");
        }
        s.append(names[i].as_str());
        proof {
            let p = ns.subrange(0, i + 1);
            assert(p.drop_last() =~= ns.subrange(0, i as int));
            if i == 0 {
                assert(joined_names(ns.subrange(0, 0)) =~= Seq::<char>::empty());
            }
            assert(s@ =~= "Currently available commands: "@ + joined_names(p));
        }
        i = i + 1;
    }
    proof {
        assert(ns.subrange(0, names.len() as int) =~= ns);
    }
    s
}

/// The reply when the list of templates could not be fetched.
pub fn list_failed_reply() -> (r: String)
    ensures
        r@ == list_failed_text(),
{
    String::from_str("Could not fetch the list of commands")
}

/// The reply when the template `name` could not be read from the store.
pub fn lookup_failed_reply(name: &str) -> (r: String)
    ensures
        r@ == lookup_failed_text(name@),
{
    proof {
        reveal_strlit("Could not look up '!");
        reveal_strlit("'");
    }
    concat3("Could not look up '!", name, "'")
}

/// The reply for a failure while handling the template `name`: none for bad
/// input, which is only logged.
pub fn failure_reply(name: &str, err: &KappaError) -> (r: Option<String>)
    ensures
        match err {
            KappaError::BadInput(_) => r is None,
            KappaError::TemplateMissing(n) => r matches Some(s) && s@ == missing_text(n@),
            KappaError::MissingVariable(k) => r matches Some(s) && s@ == unbound_text(name@, k@),
            KappaError::MarkingsError(_) => r matches Some(s) && s@ == broken_text(name@),
        },
{
    proof {
        reveal_strlit("Unknown command '!");
        reveal_strlit("The template of '!");
        reveal_strlit("' could not be rendered");
        reveal_strlit("' has no value for '");
        reveal_strlit("'");
    }
    match err {
        KappaError::BadInput(_) => None,
        KappaError::TemplateMissing(n) => Some(concat3("Unknown command '!", n.as_str(), "'")),
        KappaError::MissingVariable(k) => {
            let s = concat5("The template of '!", name, "' has no value for '", k.as_str(), "'");
            Some(s)
        },
        KappaError::MarkingsError(_) => Some(
            concat3("The template of '!", name, "' could not be rendered"),
        ),
    }
}

/// Only the channel owner reaches `quit`, `set`, `unset` and `give`: for any
/// other sender a command takes the normal tier, so a bare `!quit` from them
/// is the invocation of a template named `quit` and requests no shutdown.
pub proof fn lemma_only_owner_elevated(c: Command)
    requires
        !c.sender.is_owner,
    ensures
        dispatch_step(c) == normal_step(c.cmd@, opt_view(c.args), c.data@, c.sender.name@, c.sender.user_id),
        !(dispatch_step(c) is Quit),
        !(dispatch_step(c) is SetTemplate),
        !(dispatch_step(c) is UnsetTemplate),
        !(dispatch_step(c) is Give),
        c.cmd@ == "quit"@ && c.args is None ==> dispatch_step(c) == Step::Template(
            "quit"@,
            c.sender.name@,
            c.sender.user_id,
        ),
{
    reveal_strlit("quit");
    reveal_strlit("commands");
    if c.cmd@ == "quit"@ {
        assert(c.cmd@ != "commands"@) by {
            assert(c.cmd@.len() != "commands"@.len());
        }
    }
}

/// What `!set name template` stores is what a later `!name` asks for: the
/// owner's command hands the store exactly that name and text, and the bare
/// command of any sender looks up the same name for rendering.
pub proof fn lemma_set_then_invoke(set_cmd: Command, call: Command, name: Seq<char>, template: Seq<char>)
    requires
        set_cmd.sender.is_owner,
        set_cmd.cmd@ == "set"@,
        opt_view(set_cmd.args) matches Some(a) && split_spec(a) == Some((name, Some(template))),
        call.cmd@ == name,
        call.args is None,
        name != "commands"@,
        call.sender.is_owner ==> name != "quit"@,
    ensures
        dispatch_step(set_cmd) == Step::SetTemplate(name, template),
        dispatch_step(call) == Step::Template(name, call.sender.name@, call.sender.user_id),
{
    reveal_strlit("set");
    reveal_strlit("quit");
    reveal_strlit("unset");
    reveal_strlit("give");
    assert("set"@ != "quit"@) by {
        assert("set"@.len() != "quit"@.len());
    }
    assert("set"@ != "unset"@) by {
        assert("set"@.len() != "unset"@.len());
    }
}

impl Commands {
    /// Starts a dispatcher with the given session state.
    pub fn new(state: State) -> (r: Self)
        ensures
            r.state == state,
    {
        Commands { state }
    }

    /// Decides what `command` asks for: the owner's actions first, then the
    /// ones open to everyone; a command of no known shape is bad input.
    pub fn dispatch(&mut self, command: &Command) -> (r: Result<Action, KappaError>)
        ensures
            result_step(r) == Some(dispatch_step(*command)),
            final(self).state.start == old(self).state.start,
            final(self).state.quit == (old(self).state.quit || dispatch_step(*command) == Step::Quit),
    {
        if command.sender.is_owner {
            match self.elevated_dispatch(command) {
                Some(action) => return Ok(action),
                None => {},
            }
        }
        self.normal_dispatch(command)
    }

    fn elevated_dispatch(&mut self, command: &Command) -> (r: Option<Action>)
        ensures
            match r {
                Some(a) => elevated_step(command.cmd@, opt_view(command.args)) == Some(a@),
                None => elevated_step(command.cmd@, opt_view(command.args)) is None,
            },
            final(self).state.start == old(self).state.start,
            final(self).state.quit == (old(self).state.quit || (r matches Some(a) && a@ == Step::Quit)),
    {
        proof {
            reveal_strlit("quit");
            reveal_strlit("unset");
            reveal_strlit("set");
            reveal_strlit("give");
        }
        let verb = command.cmd;
        if str_eq(verb, "quit") && command.args.is_none() {
            return Some(self.quit(command));
        }
        let args = match command.args {
            Some(a) => a,
            None => return None,
        };
        if str_eq(verb, "unset") {
            Some(self.unset(command, args))
        } else if str_eq(verb, "set") {
            match split_user_cmd(args) {
                Some((name, template)) => Some(self.set(command, name, template)),
                None => None,
            }
        } else if str_eq(verb, "give") {
            match split_user_cmd(args) {
                Some((user, amount)) => Some(self.give(command, user, amount)),
                None => None,
            }
        } else {
            None
        }
    }

    fn normal_dispatch(&self, command: &Command) -> (r: Result<Action, KappaError>)
        ensures
            result_step(r) == Some(
                normal_step(
                    command.cmd@,
                    opt_view(command.args),
                    command.data@,
                    command.sender.name@,
                    command.sender.user_id,
                ),
            ),
    {
        proof {
            reveal_strlit("commands");
        }
        if command.args.is_some() {
            return Err(KappaError::BadInput(String::from_str(command.data)));
        }
        if str_eq(command.cmd, "commands") {
            Ok(self.list_commands(command))
        } else {
            Ok(
                Action::Template {
                    name: String::from_str(command.cmd),
                    user_name: command.sender.name.clone(),
                    user_id: command.sender.user_id,
                },
            )
        }
    }

    /// `!quit`: requests the end of the session.
    pub fn quit(&mut self, _command: &Command) -> (r: Action)
        ensures
            r@ == Step::Quit,
            final(self).state.quit,
            final(self).state.start == old(self).state.start,
    {
        self.state.quit = true;
        Action::Quit
    }

    /// `!unset name`: deletes the template `name`.
    pub fn unset(&self, _command: &Command, user_cmd: &str) -> (r: Action)
        ensures
            r@ == Step::UnsetTemplate(user_cmd@),
    {
        Action::UnsetTemplate { name: String::from_str(user_cmd) }
    }

    /// `!set name template`: stores the template, or replies with the usage
    /// when the template is missing.
    pub fn set(&self, _command: &Command, user_cmd: &str, template: Option<&str>) -> (r: Action)
        ensures
            r@ == match template {
                Some(t) => Step::SetTemplate(user_cmd@, t@),
                None => Step::Reply(set_usage()),
            },
    {
        match template {
            Some(t) => Action::SetTemplate {
                name: String::from_str(user_cmd),
                template: String::from_str(t),
            },
            None => {
                proof {
                    reveal_strlit("usage: !set <command> <template>");
                }
                Action::Reply(String::from_str("usage: !set <command> <template>"))
            },
        }
    }

    /// `!give user amount`: credits the points, or replies with the usage when
    /// the amount is missing and with a failure when it is not an integer.
    pub fn give(&self, _command: &Command, user: &str, amount: Option<&str>) -> (r: Action)
        ensures
            r@ == match amount {
                Some(a) => match i64_text_value(a@) {
                    Some(v) => Step::Give(user@, OUR_USER_ID, v),
                    None => Step::Reply(give_failed_text(a@, user@)),
                },
                None => Step::Reply(give_usage()),
            },
    {
        let value = match amount {
            Some(value) => value,
            None => {
                proof {
                    reveal_strlit("usage: !give <user> <number>");
                }
                return Action::Reply(String::from_str("usage: !give <user> <number>"));
            },
        };
        match parse_i64(value) {
            Some(v) => Action::Give { user: String::from_str(user), account: OUR_USER_ID, amount: v },
            None => Action::Reply(give_failed_reply(value, user)),
        }
    }

    /// `!commands`: lists the channel's templates.
    pub fn list_commands(&self, _command: &Command) -> (r: Action)
        ensures
            r@ == Step::ListCommands,
    {
        Action::ListCommands
    }

    /// What to do once the points of `!give` were credited (`credited`) or
    /// not: announce them to `user` with the `points` template, or reply with
    /// the failure.
    pub fn after_give(&self, user: &str, amount: i64, credited: bool) -> (r: Action)
        ensures
            credited ==> r@ == Step::Template("points"@, user@, Some(OUR_USER_ID)),
            !credited ==> r@ == Step::Reply(give_failed_text(signed_decimal(amount as int), user@)),
    {
        if credited {
            proof {
                reveal_strlit("points");
            }
            Action::Template {
                name: String::from_str("points"),
                user_name: String::from_str(user),
                user_id: Some(OUR_USER_ID),
            }
        } else {
            let text = signed_decimal_string(amount);
            Action::Reply(give_failed_reply(text.as_str(), user))
        }
    }

    /// Seconds since the session started, as of `now`.
    pub fn uptime(&self, now: u64) -> (r: u64)
        ensures
            r == if now >= self.state.start { now - self.state.start } else { 0 },
    {
        if now >= self.state.start {
            now - self.state.start
        } else {
            0
        }
    }

    /// Renders the template `user_command` for the sender `user_name`, given
    /// the stored text (`None` when there is none), the time `now` and the
    /// points balance when it was looked up.
    pub fn do_template(
        &self,
        template: Option<&str>,
        user_command: &str,
        user_name: &str,
        now: u64,
        points: Option<i64>,
    ) -> (r: Result<String, KappaError>)
        ensures
            template is None ==> (r matches Err(KappaError::TemplateMissing(n)) && n@ == user_command@),
            template matches Some(body) ==> {
                let up = (if now >= self.state.start { now - self.state.start } else { 0 }) as nat;
                &&& (r is Ok <==> template_renders(body@, points is Some))
                &&& (r matches Err(e) ==> is_render_error(e))
                &&& (lacks_variable(body@, points is Some) ==> r matches Err(
                    KappaError::MissingVariable(_),
                ))
                &&& (r matches Err(KappaError::MissingVariable(k)) ==> (found_keys(body@) matches Some(keys)
                    && first_unknown(keys, points is Some) matches Some(i) && k@ == keys[i]))
                &&& (r matches Ok(text) ==> {
                    let keys = found_keys(body@)->0;
                    (keys.len() == 0 || order_free(bindings_for(keys, user_name@, up, points)))
                        ==> text@ == rendered(body@, keys, user_name@, up, points)
                })
            },
    {
        let body = match template {
            Some(body) => body,
            None => return Err(KappaError::TemplateMissing(String::from_str(user_command))),
        };
        let up = self.uptime(now);
        render_template(body, user_name, up, points)
    }
}

} // verus!
