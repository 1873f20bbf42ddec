//! The translator for Eltex ESR-200 routers.

use vstd::prelude::*;
use vstd::string::*;
use crate::config_engine::types::{is_first_key, lacks_key, lookup};
use crate::device::commands::DeviceCommands;
use crate::error::types::{validation_error, Error, ErrorModel};
use crate::text::{
    blank, contains, has_substring, is_blank, join2, join3, join_lines, lines_of, split_lines,
    str_eq, texts, trim, trimmed,
};
use crate::transport::line::{Line, Signal};
use crate::transport::traits::Transport;

verus! {

/// The prompt with which the router says that it is ready.
pub open spec fn main_prompt() -> Seq<char> {
    "esr-200#"@
}

/// What `start_settings` answers when it has run to its end.
pub open spec fn setup_report() -> Seq<char> {
    "Initial setup completed: password changed and configuration saved"@
}

/// The commands of a login: the user name, then the password.
pub open spec fn login_script(username: Seq<char>, password: Seq<char>) -> Seq<Seq<char>> {
    seq![username, password]
}

/// The commands of the first setup: log in, enter the configuration mode,
/// give the user a new password, leave the mode, save, log out.
pub open spec fn start_settings_script(
    username: Seq<char>,
    password: Seq<char>,
    new_password: Seq<char>,
) -> Seq<Seq<char>> {
    seq![
        username,
        password,
        "configure"@,
        "username "@ + username,
        "password "@ + new_password,
        "exit"@,
        "exit"@,
        "write"@,
        "exit"@,
    ]
}

/// The commands that give an interface its address.
pub open spec fn configure_interface_script(
    interface: Seq<char>,
    ip: Seq<char>,
    mask: Seq<char>,
) -> Seq<Seq<char>> {
    seq![
        "configure"@,
        "interface "@ + interface + " ip address "@ + ip + "/"@ + mask,
        "end"@,
    ]
}

/// The calls on the transport for one command: the command goes out as a
/// line, then the answer is read up to the main prompt.
pub open spec fn exchange(command: Seq<char>) -> Seq<Signal> {
    seq![Signal::SendLine(command), Signal::ReadPrompt(main_prompt())]
}

/// The calls on the transport for a command, of which the reading is left
/// out where the sending has failed.
pub open spec fn exchanged(
    before: Seq<Signal>,
    after: Seq<Signal>,
    command: Seq<char>,
    ok: bool,
) -> bool {
    after == before + exchange(command) || (!ok && after == before + exchange(command).take(1))
}

/// The calls on the transport for a script of commands that all succeed.
pub open spec fn wire_of(script: Seq<Seq<char>>) -> Seq<Signal>
    decreases script.len(),
{
    if script.len() == 0 {
        Seq::empty()
    } else {
        wire_of(script.drop_last()) + exchange(script.last())
    }
}

/// The calls on the transport with which a session is opened: a bare line
/// end goes out, a second passes, and the banner is read up to the main
/// prompt.
pub open spec fn handshake() -> Seq<Signal> {
    seq![Signal::Send(seq![13u8, 10u8]), Signal::Pause(1000), Signal::ReadPrompt(main_prompt())]
}

/// Of `script`, the first command at least was issued after `before`, and
/// the commands issued are a start of the script.
pub open spec fn issued_part(
    before: Seq<Seq<char>>,
    after: Seq<Seq<char>>,
    script: Seq<Seq<char>>,
) -> bool {
    exists|k: int| 1 <= k <= script.len() && after == before + #[trigger] script.take(k)
}

/// A line that opens the answer to `show system` but is no part of it: a
/// blank line, or the echo of the command.
pub open spec fn is_preamble(line: Seq<char>) -> bool {
    is_blank(line) || has_substring(line, "show system"@)
}

/// The lines after the preamble.
pub open spec fn skip_preamble(lines: Seq<Seq<char>>) -> Seq<Seq<char>>
    decreases lines.len(),
{
    if lines.len() > 0 && is_preamble(lines[0]) {
        skip_preamble(lines.drop_first())
    } else {
        lines
    }
}

/// The lines before the first one that holds the prompt.
pub open spec fn until_prompt(lines: Seq<Seq<char>>) -> Seq<Seq<char>>
    decreases lines.len(),
{
    if lines.len() == 0 || has_substring(lines[0], main_prompt()) {
        Seq::empty()
    } else {
        seq![lines[0]] + until_prompt(lines.drop_first())
    }
}

/// The answer to `show system` without the echoed command before it and
/// the prompt after it, and without white space around it.
pub open spec fn cleaned(response: Seq<char>) -> Seq<char> {
    trim(join_lines(until_prompt(skip_preamble(lines_of(response)))))
}

/// Cleans the raw answer to `show system`.
pub fn clean_system_output(response: &str) -> (text: String)
    ensures
        text@ == cleaned(response@),
{
    let lines = split_lines(response);
    let n = lines.len();
    let ghost all = texts(lines@);
    let mut first: usize = 0;
    assert(all.subrange(0, n as int) == all);
    while first < n && (blank(lines[first].as_str()) || contains(
        lines[first].as_str(),
        "show system",
    ))
        invariant
            first <= n,
            n == lines.len(),
            all == texts(lines@),
            skip_preamble(all) == skip_preamble(all.subrange(first as int, n as int)),
        decreases n - first,
    {
        assert(all.subrange(first as int, n as int)[0] == lines@[first as int]@);
        assert(all.subrange(first as int, n as int).drop_first() == all.subrange(
            first + 1,
            n as int,
        ));
        first = first + 1;
    }
    assert(skip_preamble(all) == all.subrange(first as int, n as int)) by {
        if first < n {
            assert(all.subrange(first as int, n as int)[0] == lines@[first as int]@);
        }
    }
    let mut joined = String::new();
    let mut next: usize = first;
    let ghost mut kept: Seq<Seq<char>> = Seq::empty();
    assert(joined@ =~= join_lines(kept));
    assert(kept + until_prompt(all.subrange(next as int, n as int)) =~= until_prompt(
        all.subrange(first as int, n as int),
    ));
    while next < n && !contains(lines[next].as_str(), "esr-200#")
        invariant
            first <= next <= n,
            n == lines.len(),
            all == texts(lines@),
            kept.len() == next - first,
            joined@ == join_lines(kept),
            until_prompt(all.subrange(first as int, n as int)) == kept + until_prompt(
                all.subrange(next as int, n as int),
            ),
        decreases n - next,
    {
        let ghost line = lines@[next as int]@;
        let ghost rest = all.subrange(next as int, n as int);
        assert(rest[0] == line);
        assert(rest.drop_first() == all.subrange(next + 1, n as int));
        if next > first {
            joined.append("\n");
            proof {
                reveal_strlit("\n");
                assert("\n"@ =~= seq!['\n']);
            }
        }
        joined.append(lines[next].as_str());
        proof {
            let longer = kept.push(line);
            assert(longer.drop_last() == kept);
            assert(longer.last() == line);
            assert(joined@ =~= join_lines(longer));
            assert(kept + (seq![line] + until_prompt(rest.drop_first())) =~= longer
                + until_prompt(rest.drop_first()));
            kept = longer;
        }
        next = next + 1;
    }
    proof {
        let rest = all.subrange(next as int, n as int);
        if next < n {
            assert(rest[0] == lines@[next as int]@);
        }
        assert(until_prompt(rest) =~= Seq::<Seq<char>>::empty());
        assert(kept + until_prompt(rest) =~= kept);
    }
    trimmed(joined.as_str())
}

/// A canned procedure, with the parameters that it needs.
pub enum Operation<'a> {
    /// The first setup of a device.
    StartSettings { username: &'a String, password: &'a String, new_password: &'a String },
    /// The state of the system.
    ShowSystem,
}

/// Why the procedure `operation` cannot run with `params`, if it cannot:
/// a parameter that it needs is missing, or no procedure has this name.
pub open spec fn operation_error(
    operation: Seq<char>,
    params: Seq<(String, String)>,
) -> Option<ErrorModel> {
    if operation == "start_settings"@ {
        if lacks_key(params, "username"@) {
            Some(validation_error("Missing username parameter"@))
        } else if lacks_key(params, "password"@) {
            Some(validation_error("Missing password parameter"@))
        } else if lacks_key(params, "new_password"@) {
            Some(validation_error("Missing new_password parameter"@))
        } else {
            None
        }
    } else if operation == "show_system"@ {
        None
    } else {
        Some(validation_error("Unknown operation '"@ + operation + "' for Eltex ESR-200"@))
    }
}

/// `value` stands under `key` in `params`, at the key's first place.
pub open spec fn holds_param(params: Seq<(String, String)>, key: Seq<char>, value: String) -> bool {
    exists|i: int| is_first_key(params, key, i) && value == params[i].1
}

/// Finds the procedure with this name and its parameters.
pub fn parse_operation<'a>(operation: &str, params: &'a Vec<(String, String)>) -> (parsed: Result<
    Operation<'a>,
    Error,
>)
    ensures
        match parsed {
            Ok(Operation::StartSettings { username, password, new_password }) => {
                &&& operation@ == "start_settings"@
                &&& holds_param(params@, "username"@, *username)
                &&& holds_param(params@, "password"@, *password)
                &&& holds_param(params@, "new_password"@, *new_password)
            },
            Ok(Operation::ShowSystem) => operation@ != "start_settings"@ && operation@
                == "show_system"@,
            Err(error) => operation_error(operation@, params@) == Some(error@),
        },
        parsed is Ok <==> operation_error(operation@, params@) is None,
{
    if str_eq(operation, "start_settings") {
        let username = match lookup(params, "username") {
            Some(value) => value,
            None => {
                return Err(
                    Error::ConfigValidation(String::from_str("Missing username parameter")),
                );
            },
        };
        let password = match lookup(params, "password") {
            Some(value) => value,
            None => {
                return Err(
                    Error::ConfigValidation(String::from_str("Missing password parameter")),
                );
            },
        };
        let new_password = match lookup(params, "new_password") {
            Some(value) => value,
            None => {
                return Err(
                    Error::ConfigValidation(String::from_str("Missing new_password parameter")),
                );
            },
        };
        Ok(Operation::StartSettings { username, password, new_password })
    } else if str_eq(operation, "show_system") {
        Ok(Operation::ShowSystem)
    } else {
        Err(
            Error::ConfigValidation(join3("Unknown operation '", operation, "' for Eltex ESR-200")),
        )
    }
}

/// An Eltex ESR-200 at the far end of a transport.
pub struct EltexEsr200<T: Transport> {
    line: Line<T>,
    issued: Ghost<Seq<Seq<char>>>,
}

impl<T: Transport> EltexEsr200<T> {
    /// The commands handed to the transport since the session began, in
    /// order, whether or not the transport could send them.
    pub closed spec fn issued(&self) -> Seq<Seq<char>> {
        self.issued@
    }

    /// The calls made on the transport since the line was made, in order.
    pub closed spec fn signals(&self) -> Seq<Signal> {
        self.line.signals()
    }

    /// The transport of this session.
    pub closed spec fn transport(&self) -> T {
        self.line.transport()
    }

    /// Opens a session over `transport` with the handshake: one call of
    /// `send` with a bare line end; unless that failed, a pause of a second
    /// and one call of `receive_until_prompt` for the main prompt, each on
    /// the transport as the call before left it.
    ///
    /// The session stands exactly when the sending and the reading have
    /// succeeded; it holds the transport as the reading left it, and no
    /// command has been issued on it. Where one of the two has failed, its
    /// error is the answer.
    pub fn new(transport: T) -> (device: Result<Self, Error>)
        ensures
            device matches Ok(d) ==> d.issued() == Seq::<Seq<char>>::empty() && d.signals()
                == handshake(),
            exists|first: &mut T, bytes: &[u8], sent: Result<(), Error>|
                {
                    &&& *first == transport
                    &&& bytes@ == seq![13u8, 10u8]
                    &&& #[trigger] call_ensures(T::send, (first, bytes), sent)
                    &&& match sent {
                        Err(error) => device matches Err(e) && e == error,
                        Ok(_) => exists|second: &mut T, third: &mut T, banner: Result<String, Error>|
                            #![trigger
                                call_ensures(T::pause, (second, 1000u64), ()),
                                call_ensures(T::receive_until_prompt, (third, "esr-200#"), banner)
                            ]
                            {
                                &&& *second == *final(first)
                                &&& call_ensures(T::pause, (second, 1000u64), ())
                                &&& *third == *final(second)
                                &&& call_ensures(
                                    T::receive_until_prompt,
                                    (third, "esr-200#"),
                                    banner,
                                )
                                &&& match banner {
                                    Err(error) => device matches Err(e) && e == error,
                                    Ok(_) => device matches Ok(d) && d.transport() == *final(third),
                                }
                            },
                    }
                },
    {
        let line = Line::new(transport);
        assert(line.signals() + handshake() =~= handshake());
        Self::greet(line)
    }

    /// Opens a session over a line with the handshake: one call of `send`
    /// with a bare line end; unless that failed, a pause of a second and
    /// one call of `receive_until_prompt` for the main prompt, each on the
    /// transport as the call before left it.
    ///
    /// The session stands exactly when the sending and the reading have
    /// succeeded; it holds the transport as the reading left it, and no
    /// command has been issued on it. Where one of the two has failed, its
    /// error is the answer.
    pub fn greet(line: Line<T>) -> (device: Result<Self, Error>)
        ensures
            device matches Ok(d) ==> d.issued() == Seq::<Seq<char>>::empty() && d.signals()
                == line.signals() + handshake(),
            exists|first: &mut T, bytes: &[u8], sent: Result<(), Error>|
                {
                    &&& *first == line.transport()
                    &&& bytes@ == seq![13u8, 10u8]
                    &&& #[trigger] call_ensures(T::send, (first, bytes), sent)
                    &&& match sent {
                        Err(error) => device matches Err(e) && e == error,
                        Ok(_) => exists|second: &mut T, third: &mut T, banner: Result<String, Error>|
                            #![trigger
                                call_ensures(T::pause, (second, 1000u64), ()),
                                call_ensures(T::receive_until_prompt, (third, "esr-200#"), banner)
                            ]
                            {
                                &&& *second == *final(first)
                                &&& call_ensures(T::pause, (second, 1000u64), ())
                                &&& *third == *final(second)
                                &&& call_ensures(
                                    T::receive_until_prompt,
                                    (third, "esr-200#"),
                                    banner,
                                )
                                &&& match banner {
                                    Err(error) => device matches Err(e) && e == error,
                                    Ok(_) => device matches Ok(d) && d.transport() == *final(third),
                                }
                            },
                    }
                },
    {
        let mut line = line;
        let ghost before = line.signals();
        let mut line_end: Vec<u8> = Vec::new();
        line_end.push(13u8);
        line_end.push(10u8);
        assert(line_end@ =~= seq![13u8, 10u8]);
        match line.send(line_end.as_slice()) {
            Err(error) => Err(error),
            Ok(_) => {
                line.pause(1000);
                match line.receive_until_prompt("esr-200#") {
                    Err(error) => Err(error),
                    Ok(_) => {
                        assert(line.signals() =~= before + handshake());
                        Ok(EltexEsr200 { line, issued: Ghost(Seq::empty()) })
                    },
                }
            },
        }
    }

    /// Issues the command at place `k` of `script`.
    fn issue(
        &mut self,
        command: &str,
        Ghost(before): Ghost<Seq<Seq<char>>>,
        Ghost(script): Ghost<Seq<Seq<char>>>,
        Ghost(k): Ghost<int>,
        Ghost(wire): Ghost<Seq<Signal>>,
    ) -> (answer: Result<String, Error>)
        requires
            0 <= k < script.len(),
            script[k] == command@,
            old(self).issued() == before + script.take(k),
            old(self).signals() == wire + wire_of(script.take(k)),
        ensures
            final(self).issued() == before + script.take(k + 1),
            issued_part(before, final(self).issued(), script),
            answer is Ok ==> final(self).signals() == wire + wire_of(script.take(k + 1)),
    {
        let answer = self.execute_command(command);
        assert(self.issued() =~= before + script.take(k + 1));
        assert(script.take(k + 1).drop_last() == script.take(k));
        assert(script.take(k + 1).last() == command@);
        if answer.is_ok() {
            assert(self.signals() =~= wire + wire_of(script.take(k + 1)));
        }
        answer
    }

    /// Sets a device up for the first time: logs in as `username`, gives
    /// that user `new_password`, saves the configuration and logs out.
    /// The commands go out in the order of `start_settings_script`, up to
    /// the first that fails.
    pub fn start_settings(&mut self, username: &str, password: &str, new_password: &str) -> (report:
        Result<String, Error>)
        ensures
            report matches Ok(text) ==> {
                &&& text@ == setup_report()
                &&& final(self).issued() == old(self).issued() + start_settings_script(
                    username@,
                    password@,
                    new_password@,
                )
                &&& final(self).signals() == old(self).signals() + wire_of(
                    start_settings_script(username@, password@, new_password@),
                )
            },
            report is Err ==> issued_part(
                old(self).issued(),
                final(self).issued(),
                start_settings_script(username@, password@, new_password@),
            ),
    {
        let ghost before = self.issued();
        let ghost wire = self.signals();
        let ghost script = start_settings_script(username@, password@, new_password@);
        let logged_in = self.login(username, password);
        proof {
            let part = login_script(username@, password@);
            if logged_in is Err {
                let k = choose|k: int|
                    1 <= k <= part.len() && self.issued() == before + #[trigger] part.take(k);
                assert(part.take(k) =~= script.take(k));
            } else {
                assert(part =~= script.take(2));
            }
        }
        logged_in?;
        self.issue("configure", Ghost(before), Ghost(script), Ghost(2), Ghost(wire))?;
        let set_user = join2("username ", username);
        self.issue(set_user.as_str(), Ghost(before), Ghost(script), Ghost(3), Ghost(wire))?;
        let set_password = join2("password ", new_password);
        self.issue(set_password.as_str(), Ghost(before), Ghost(script), Ghost(4), Ghost(wire))?;
        self.issue("exit", Ghost(before), Ghost(script), Ghost(5), Ghost(wire))?;
        self.issue("exit", Ghost(before), Ghost(script), Ghost(6), Ghost(wire))?;
        let saved = self.save_config();
        proof {
            assert(self.issued() =~= before + script.take(8));
            assert(script.take(8).drop_last() == script.take(7));
            if saved is Ok {
                assert(self.signals() =~= wire + wire_of(script.take(8)));
            }
        }
        saved?;
        let logged_out = self.logout();
        proof {
            assert(self.issued() =~= before + script.take(9));
            assert(script.take(9).drop_last() == script.take(8));
            assert(script.take(9) =~= script);
            if logged_out is Ok {
                assert(self.signals() =~= wire + wire_of(script));
            }
        }
        logged_out?;
        Ok(String::from_str("Initial setup completed: password changed and configuration saved"))
    }

    /// Logs in: issues the user name, then the password, and answers with
    /// what the device said to the password.
    pub fn login(&mut self, username: &str, password: &str) -> (answer: Result<String, Error>)
        ensures
            answer is Ok ==> final(self).issued() == old(self).issued() + login_script(
                username@,
                password@,
            ) && final(self).signals() == old(self).signals() + wire_of(
                login_script(username@, password@),
            ),
            answer is Err ==> issued_part(
                old(self).issued(),
                final(self).issued(),
                login_script(username@, password@),
            ),
    {
        let ghost before = self.issued();
        let ghost wire = self.signals();
        let ghost script = login_script(username@, password@);
        assert(before + script.take(0) =~= before);
        assert(wire + wire_of(script.take(0)) =~= wire);
        self.issue(username, Ghost(before), Ghost(script), Ghost(0), Ghost(wire))?;
        let answer = self.issue(password, Ghost(before), Ghost(script), Ghost(1), Ghost(wire))?;
        assert(script.take(2) =~= script);
        Ok(answer)
    }

    /// Gives `interface` the address `ip`/`mask` and answers with what the
    /// device said to that command.
    pub fn configure_interface(&mut self, interface: &str, ip: &str, mask: &str) -> (answer: Result<
        String,
        Error,
    >)
        ensures
            answer is Ok ==> final(self).issued() == old(self).issued()
                + configure_interface_script(interface@, ip@, mask@) && final(self).signals()
                == old(self).signals() + wire_of(
                configure_interface_script(interface@, ip@, mask@),
            ),
            answer is Err ==> issued_part(
                old(self).issued(),
                final(self).issued(),
                configure_interface_script(interface@, ip@, mask@),
            ),
    {
        let ghost before = self.issued();
        let ghost wire = self.signals();
        let ghost script = configure_interface_script(interface@, ip@, mask@);
        assert(before + script.take(0) =~= before);
        assert(wire + wire_of(script.take(0)) =~= wire);
        self.issue("configure", Ghost(before), Ghost(script), Ghost(0), Ghost(wire))?;
        let command = join3("interface ", interface, " ip address ").concat(ip).concat(
            "/",
        ).concat(mask);
        let answer = self.issue(
            command.as_str(),
            Ghost(before),
            Ghost(script),
            Ghost(1),
            Ghost(wire),
        )?;
        self.issue("end", Ghost(before), Ghost(script), Ghost(2), Ghost(wire))?;
        assert(script.take(3) =~= script);
        Ok(answer)
    }

    /// Saves the configuration: issues `write`.
    fn save_config(&mut self) -> (answer: Result<String, Error>)
        ensures
            final(self).issued() == old(self).issued().push("write"@),
            exchanged(old(self).signals(), final(self).signals(), "write"@, answer is Ok),
    {
        self.execute_command("write")
    }

    /// Asks for the state of the system: issues `show system` and answers
    /// with the device's text, cleaned of echo and prompt.
    pub fn show_system(&mut self) -> (answer: Result<String, Error>)
        ensures
            final(self).issued() == old(self).issued().push("show system"@),
            exchanged(old(self).signals(), final(self).signals(), "show system"@, answer is Ok),
            answer matches Ok(text) ==> exists|raw: Seq<char>| text@ == #[trigger] cleaned(raw),
    {
        let response = self.execute_command("show system")?;
        Ok(clean_system_output(response.as_str()))
    }

    /// Logs out: issues `exit`.
    pub fn logout(&mut self) -> (answer: Result<String, Error>)
        ensures
            final(self).issued() == old(self).issued().push("exit"@),
            exchanged(old(self).signals(), final(self).signals(), "exit"@, answer is Ok),
    {
        self.execute_command("exit")
    }
}

impl<T: Transport> DeviceCommands for EltexEsr200<T> {
    /// Issues `command`: sends it as one line and, unless that fails,
    /// reads up to the main prompt.
    fn execute_command(&mut self, command: &str) -> (answer: Result<String, Error>)
        ensures
            final(self).issued() == old(self).issued().push(command@),
            exchanged(old(self).signals(), final(self).signals(), command@, answer is Ok),
    {
        let ghost wire = self.signals();
        proof {
            self.issued@ = self.issued@.push(command@);
        }
        let sent = self.line.send_string(command);
        assert(self.signals() =~= wire + exchange(command@).take(1));
        sent?;
        let answer = self.line.receive_until_prompt("esr-200#");
        assert(self.signals() =~= wire + exchange(command@));
        answer
    }

    /// Logs out, whether or not the device takes it, then tears the
    /// transport down.
    fn disconnect(&mut self) -> (done: Result<(), Error>)
        ensures
            final(self).issued() == old(self).issued().push("exit"@),
            final(self).signals().len() > 0 && final(self).signals().last() == Signal::Disconnect,
            exists|ok: bool|
                exchanged(
                    old(self).signals(),
                    #[trigger] final(self).signals().drop_last(),
                    "exit"@,
                    ok,
                ),
    {
        let ghost wire = self.signals();
        let left = self.logout();
        let ghost after_logout = self.signals();
        let done = self.line.disconnect();
        assert(self.signals().drop_last() == after_logout);
        assert(exchanged(wire, self.signals().drop_last(), "exit"@, left is Ok));
        done
    }

    /// Runs a canned procedure. A name that stands for none, or a missing
    /// parameter, is an error before any command is issued.
    fn execute_device_operation(
        &mut self,
        operation: &str,
        params: &Vec<(String, String)>,
    ) -> (answer: Result<String, Error>)
        ensures
            operation_error(operation@, params@) matches Some(error) ==> answer is Err
                && answer->Err_0@ == error && final(self).issued() == old(self).issued() && final(self).signals() == old(self).signals(),
            operation_error(operation@, params@) is None ==> final(self).issued().len() > old(self).issued().len(),
            operation_error(operation@, params@) is None && operation@ != "start_settings"@ ==> {
                &&& final(self).issued() == old(self).issued().push("show system"@)
                &&& exchanged(
                    old(self).signals(),
                    final(self).signals(),
                    "show system"@,
                    answer is Ok,
                )
                &&& answer matches Ok(text) ==> exists|raw: Seq<char>|
                    text@ == #[trigger] cleaned(raw)
            },
            operation_error(operation@, params@) is None && operation@ == "start_settings"@
                ==> exists|username: String, password: String, new_password: String|
                {
                    &&& holds_param(params@, "username"@, username)
                    &&& holds_param(params@, "password"@, password)
                    &&& holds_param(params@, "new_password"@, new_password)
                    &&& answer matches Ok(text) ==> {
                        &&& text@ == setup_report()
                        &&& final(self).issued() == old(self).issued()
                            + #[trigger] start_settings_script(
                            username@,
                            password@,
                            new_password@,
                        )
                        &&& final(self).signals() == old(self).signals() + wire_of(
                            start_settings_script(username@, password@, new_password@),
                        )
                    }
                    &&& answer is Err ==> issued_part(
                        old(self).issued(),
                        final(self).issued(),
                        start_settings_script(username@, password@, new_password@),
                    )
                },
    {
        match parse_operation(operation, params)? {
            Operation::StartSettings { username, password, new_password } => {
                let answer = self.start_settings(
                    username.as_str(),
                    password.as_str(),
                    new_password.as_str(),
                );
                proof {
                    let script = start_settings_script(username@, password@, new_password@);
                    if answer is Err {
                        let k = choose|k: int|
                            1 <= k <= script.len() && self.issued() == old(self).issued()
                                + #[trigger] script.take(k);
                        assert(script.take(k).len() == k);
                    }
                }
                answer
            },
            Operation::ShowSystem => self.show_system(),
        }
    }

    /// Reads until `prompt` shows; issues nothing.
    fn wait_prompt(&mut self, prompt: &str) -> (answer: Result<String, Error>)
        ensures
            final(self).issued() == old(self).issued(),
            final(self).signals() == old(self).signals().push(Signal::ReadPrompt(prompt@)),
    {
        self.line.receive_until_prompt(prompt)
    }

    /// Lets the given time pass; issues nothing.
    fn pause(&mut self, milliseconds: u64)
        ensures
            final(self).issued() == old(self).issued(),
            final(self).signals() == old(self).signals().push(Signal::Pause(milliseconds)),
    {
        self.line.pause(milliseconds)
    }
}

} // verus!
