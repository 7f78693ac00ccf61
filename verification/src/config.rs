//! What a configuration supplies to the timer.

use vstd::prelude::*;
use crate::time::Duration;

verus! {

/// One named stretch of the cycle. A session may bring a time pattern of its
/// own, which then takes the place of the default one.
#[derive(Clone, Debug)]
pub struct Session {
    pub name: String,
    pub duration: Duration,
    pub time_format: Option<String>,
}

/// What a configuration file may hold: every text is optional.
#[derive(Debug)]
pub struct TomlConfig {
    pub paused_state_text: Option<String>,
    pub running_state_text: Option<String>,
    pub time_format: Option<String>,
    pub socket_dir: Option<String>,
    pub sessions: Vec<Session>,
}

/// The configuration that the program runs with.
#[derive(Debug)]
pub struct Config {
    pub paused_state_text: String,
    pub running_state_text: String,
    pub time_format: String,
    pub socket_dir: String,
    pub sessions: Vec<Session>,
}

/// The text `given`, or `fallback` where none is given.
pub open spec fn text_or(given: Option<String>, fallback: Seq<char>) -> Seq<char> {
    match given {
        Some(text) => text@,
        None => fallback,
    }
}

/// The character for a single decimal digit.
pub open spec fn digit(d: nat) -> char {
    if d == 0 {
        '0'
    } else if d == 1 {
        '1'
    } else if d == 2 {
        '2'
    } else if d == 3 {
        '3'
    } else if d == 4 {
        '4'
    } else if d == 5 {
        '5'
    } else if d == 6 {
        '6'
    } else if d == 7 {
        '7'
    } else if d == 8 {
        '8'
    } else {
        '9'
    }
}

/// `n` in decimal digits, without leading zeros.
pub open spec fn decimal(n: nat) -> Seq<char>
    decreases n,
{
    if n < 10 {
        seq![digit(n)]
    } else {
        decimal(n / 10) + seq![digit(n % 10)]
    }
}

/// The name of the socket file of server `server_id`.
pub open spec fn server_file(server_id: u32) -> Seq<char> {
    "server"@ + decimal(server_id as nat) + ".sock"@
}

/// The file `name` inside the directory `dir`: the two joined by one `/`,
/// unless `dir` is empty or ends in one already.
pub open spec fn joined(dir: Seq<char>, name: Seq<char>) -> Seq<char> {
    if dir.len() == 0 {
        name
    } else if dir.last() == '/' {
        dir + name
    } else {
        dir + seq!['/'] + name
    }
}

fn digit_text(d: u32) -> (r: &'static str)
    requires
        d < 10,
    ensures
        r@ == seq![digit(d as nat)],
{
    proof {
        reveal_strlit("0");
        reveal_strlit("1");
        reveal_strlit("2");
        reveal_strlit("3");
        reveal_strlit("4");
        reveal_strlit("5");
        reveal_strlit("6");
        reveal_strlit("7");
        reveal_strlit("8");
        reveal_strlit("9");
    }
    let text = if d == 0 {
        "0"
    } else if d == 1 {
        "1"
    } else if d == 2 {
        "2"
    } else if d == 3 {
        "3"
    } else if d == 4 {
        "4"
    } else if d == 5 {
        "5"
    } else if d == 6 {
        "6"
    } else if d == 7 {
        "7"
    } else if d == 8 {
        "8"
    } else {
        "9"
    };
    assert(text@ =~= seq![digit(d as nat)]);
    text
}

/// `n` in decimal digits.
pub fn decimal_text(n: u32) -> (r: String)
    ensures
        r@ == decimal(n as nat),
    decreases n,
{
    if n < 10 {
        digit_text(n).to_owned()
    } else {
        let mut text = decimal_text(n / 10);
        text.append(digit_text(n % 10));
        text
    }
}

impl Default for TomlConfig {
    /// A file that holds nothing: no text, and the two sessions `work` of
    /// 25 minutes and `rest` of 5.
    fn default() -> (r: Self)
        ensures
            r.paused_state_text is None,
            r.running_state_text is None,
            r.time_format is None,
            r.socket_dir is None,
            r.sessions@.len() == 2,
            r.sessions@[0].name@ == "work"@,
            r.sessions@[0].duration@ == 1500 * 1_000_000_000,
            r.sessions@[0].time_format is None,
            r.sessions@[1].name@ == "rest"@,
            r.sessions@[1].duration@ == 300 * 1_000_000_000,
            r.sessions@[1].time_format is None,
    {
        let mut sessions: Vec<Session> = Vec::new();
        sessions.push(
            Session { name: "work".to_owned(), duration: Duration::from_secs(60 * 25), time_format: None },
        );
        sessions.push(
            Session { name: "rest".to_owned(), duration: Duration::from_secs(60 * 5), time_format: None },
        );
        TomlConfig {
            paused_state_text: None,
            running_state_text: None,
            time_format: None,
            socket_dir: None,
            sessions,
        }
    }
}

impl Config {
    /// Fills in what the file left out: `paused`, `running`, the pattern
    /// `%M:%S`, and `default_socket_dir` for the directory of the sockets.
    /// The sessions are taken as they are.
    pub fn from_toml(toml_config: TomlConfig, default_socket_dir: String) -> (r: Config)
        ensures
            r.paused_state_text@ == text_or(toml_config.paused_state_text, "paused"@),
            r.running_state_text@ == text_or(toml_config.running_state_text, "running"@),
            r.time_format@ == text_or(toml_config.time_format, "%M:%S"@),
            r.socket_dir@ == text_or(toml_config.socket_dir, default_socket_dir@),
            r.sessions == toml_config.sessions,
    {
        let TomlConfig { paused_state_text, running_state_text, time_format, socket_dir, sessions } =
            toml_config;
        Config {
            paused_state_text: match paused_state_text {
                Some(text) => text,
                None => "paused".to_owned(),
            },
            running_state_text: match running_state_text {
                Some(text) => text,
                None => "running".to_owned(),
            },
            time_format: match time_format {
                Some(text) => text,
                None => "%M:%S".to_owned(),
            },
            socket_dir: match socket_dir {
                Some(dir) => dir,
                None => default_socket_dir,
            },
            sessions,
        }
    }

    /// The path of the socket of server `server_id`: the file
    /// `server<id>.sock` inside the directory of the sockets.
    pub fn server_path(&self, server_id: u32) -> (r: String)
        ensures
            r@ == joined(self.socket_dir@, server_file(server_id)),
    {
        let dir: &str = self.socket_dir.as_str();
        let len = dir.unicode_len();
        let mut path = String::new();
        path.append(dir);
        if len > 0 {
            if dir.get_char(len - 1) != '/' {
                proof {
                    reveal_strlit("/");
                    assert("/"@ =~= seq!['/']);
                }
                path.append("/");
            }
        }
        let number = decimal_text(server_id);
        path.append("server");
        path.append(number.as_str());
        path.append(".sock");
        proof {
            assert(path@ =~= joined(self.socket_dir@, server_file(server_id)));
        }
        path
    }
}

} // verus!
