//! The filter's configuration: the options of the `[params]` section of its
//! INI file.

use crate::text::{
    chars_of, lowercase_of, optional_text, same_text, string_of, texts, unicode_whitespace,
};
use configparser::ini::Ini;
use vstd::prelude::*;
use vstd::slice::slice_subrange;
use vstd::string::StringExecFns;

verus! {

/// The configuration, fixed once it is loaded.
#[derive(Debug, Clone, PartialEq, Eq)]
pub struct Config {
    /// The domain served.
    pub mail_domain: String,
    /// Ceiling of the outgoing rate limiter.
    pub max_user_send_per_minute: u32,
    /// Size in bytes announced with `SIZE`.
    pub max_message_size: usize,
    /// Outgoing senders exempt from encryption enforcement.
    pub passthrough_senders: Vec<String>,
    /// Outgoing recipients exempt from it: full addresses, or domains
    /// written with a leading `@`.
    pub passthrough_recipients: Vec<String>,
    /// Port to listen on in outgoing mode.
    pub filtermail_smtp_port: u16,
    /// Port to listen on in incoming mode.
    pub filtermail_smtp_port_incoming: u16,
    /// Port of the downstream MTA in outgoing mode.
    pub postfix_reinject_port: u16,
    /// Port of the downstream MTA in incoming mode.
    pub postfix_reinject_port_incoming: u16,
    /// Directory under which each recipient's mailbox lies.
    pub mailboxes_dir: String,
}

/// The options without which the filter does not start.
#[derive(Debug, Clone, Copy, PartialEq, Eq, Structural)]
pub enum Required {
    MailDomain,
    FiltermailSmtpPort,
    FiltermailSmtpPortIncoming,
    PostfixReinjectPort,
    PostfixReinjectPortIncoming,
}

/// Why a configuration could not be loaded.
#[derive(Debug, PartialEq, Eq)]
pub enum ConfigError {
    /// The text is no INI file; the parser's message is attached.
    Unreadable(String),
    /// A required option is absent.
    Missing(Required),
    /// A port is no number, or none that fits in sixteen bits.
    InvalidPort(Required),
}

/// A `ConfigError` with its message as a sequence of characters.
pub enum ConfigErrorView {
    Unreadable(Seq<char>),
    Missing(Required),
    InvalidPort(Required),
}

impl View for ConfigError {
    type V = ConfigErrorView;

    open spec fn view(&self) -> ConfigErrorView {
        match self {
            ConfigError::Unreadable(why) => ConfigErrorView::Unreadable(why@),
            ConfigError::Missing(key) => ConfigErrorView::Missing(*key),
            ConfigError::InvalidPort(key) => ConfigErrorView::InvalidPort(*key),
        }
    }
}

/// The values of an INI file: from section and key to the value, for the
/// keys that have one.
pub type IniValues = Map<(Seq<char>, Seq<char>), Seq<char>>;

/// `configparser::ini::Ini`, the parser and the values it has read.
#[verifier::external_type_specification]
#[verifier::external_body]
pub struct ExIni(Ini);

/// The values that an `Ini` holds.
pub uninterp spec fn ini_values(ini: &Ini) -> IniValues;

/// What `Ini::read` makes of `text` on a parser with the default settings:
/// the values read, or the parser's message where it refuses the text.
pub uninterp spec fn ini_parsed(text: Seq<char>) -> Result<IniValues, Seq<char>>;

/// What `Ini::getuint` makes of a stored value: the 64-bit unsigned number
/// that it reads from it, `None` where it reads none.
pub uninterp spec fn stored_uint(value: Seq<char>) -> Option<u64>;

/// A name that the parser looks up as it is written: ASCII characters
/// only, no capital letters among them.
pub open spec fn is_plain_name(name: Seq<char>) -> bool {
    forall|i: int|
        0 <= i < name.len() ==> (#[trigger] name[i]) as u32 <= 127 && !('A' as u32 <= name[i] as u32
            <= 'Z' as u32)
}

/// The form under which the parser looks a section or key up: plain names
/// as they are, others in lower case.
pub open spec fn folded_name(name: Seq<char>) -> Seq<char> {
    if is_plain_name(name) {
        name
    } else {
        lowercase_of(name)
    }
}

/// The value stored under `key` in `section`, if there is one.
pub open spec fn stored_value(values: IniValues, section: Seq<char>, key: Seq<char>) -> Option<
    Seq<char>,
> {
    let at = (folded_name(section), folded_name(key));
    if values.contains_key(at) {
        Some(values[at])
    } else {
        None
    }
}

/// Makes an `Ini` with `Ini::new` and has it parse `text` with
/// `Ini::read`. The contract claims that the outcome is a function of the
/// text: the values that the parser then holds, or its error message.
#[verifier::external_body]
fn ini_read(text: &str) -> (r: Result<Ini, String>)
    ensures
        match r {
            Ok(ini) => ini_parsed(text@) == Ok::<IniValues, Seq<char>>(ini_values(&ini)),
            Err(why) => ini_parsed(text@) == Err::<IniValues, Seq<char>>(why@),
        },
{
    let mut ini = Ini::new();
    ini.read(text.to_string())?;
    Ok(ini)
}

/// `Ini::get`: the value stored under the key, looked up under the folded
/// names.
#[verifier::external_body]
fn ini_get(ini: &Ini, section: &str, key: &str) -> (r: Option<String>)
    ensures
        match r {
            Some(value) => stored_value(ini_values(ini), section@, key@) == Some(value@),
            None => stored_value(ini_values(ini), section@, key@) is None,
        },
{
    ini.get(section, key)
}

/// What asking for a number brings: nothing stored, a number, or a stored
/// value that is no number.
pub enum Reading {
    Absent,
    Number(u64),
    Garbled,
}

/// What a stored value reads as when a number is asked for.
pub open spec fn reading_of(stored: Option<Seq<char>>) -> Reading {
    match stored {
        None => Reading::Absent,
        Some(value) => match stored_uint(value) {
            Some(n) => Reading::Number(n),
            None => Reading::Garbled,
        },
    }
}

/// What the answer of `Ini::getuint` says.
pub open spec fn reading(answer: Result<Option<u64>, String>) -> Reading {
    match answer {
        Ok(None) => Reading::Absent,
        Ok(Some(n)) => Reading::Number(n),
        Err(_) => Reading::Garbled,
    }
}

/// `Ini::getuint`: `Ok(None)` where no value is stored under the key, the
/// number where the stored value is one, and an error where it is not.
#[verifier::external_body]
fn ini_getuint(ini: &Ini, section: &str, key: &str) -> (r: Result<Option<u64>, String>)
    ensures
        reading(r) == match stored_value(ini_values(ini), section@, key@) {
            None => Reading::Absent,
            Some(value) => match stored_uint(value) {
                Some(n) => Reading::Number(n),
                None => Reading::Garbled,
            },
        },
{
    ini.getuint(section, key)
}

/// Index of the first character of `s` at or after `i` that is no white
/// space, or the length of `s`.
pub open spec fn skip_spaces(s: Seq<char>, i: int) -> int
    decreases s.len() - i,
{
    if i < 0 || i >= s.len() {
        s.len() as int
    } else if unicode_whitespace(s[i]) {
        skip_spaces(s, i + 1)
    } else {
        i
    }
}

/// Index of the first white-space character of `s` at or after `i`, or
/// the length of `s`.
pub open spec fn skip_word(s: Seq<char>, i: int) -> int
    decreases s.len() - i,
{
    if i < 0 || i >= s.len() {
        s.len() as int
    } else if unicode_whitespace(s[i]) {
        i
    } else {
        skip_word(s, i + 1)
    }
}

/// The words of `s` from index `i` on: the longest runs of characters that
/// are no white space, in order.
pub open spec fn words_from(s: Seq<char>, i: int) -> Seq<Seq<char>>
    decreases s.len() - i,
{
    let start = skip_spaces(s, i);
    let end = skip_word(s, start);
    if 0 <= i <= start < end <= s.len() {
        seq![s.subrange(start, end)] + words_from(s, end)
    } else {
        Seq::empty()
    }
}

/// The words of an optional list; none where the option is absent.
pub open spec fn words_of(value: Option<Seq<char>>) -> Seq<Seq<char>> {
    match value {
        Some(list) => words_from(list, 0),
        None => Seq::empty(),
    }
}

/// The options of the `[params]` section as the parser hands them out:
/// texts as they are stored, numbers as `Ini::getuint` answers.
pub struct RawParams {
    pub mail_domain: Option<String>,
    pub max_user_send_per_minute: Result<Option<u64>, String>,
    pub max_message_size: Result<Option<u64>, String>,
    pub passthrough_senders: Option<String>,
    pub passthrough_recipients: Option<String>,
    pub filtermail_smtp_port: Result<Option<u64>, String>,
    pub filtermail_smtp_port_incoming: Result<Option<u64>, String>,
    pub postfix_reinject_port: Result<Option<u64>, String>,
    pub postfix_reinject_port_incoming: Result<Option<u64>, String>,
    pub mailboxes_dir: Option<String>,
}

/// The options of the `[params]` section as plain values.
pub struct Params {
    pub mail_domain: Option<Seq<char>>,
    pub max_user_send_per_minute: Reading,
    pub max_message_size: Reading,
    pub passthrough_senders: Option<Seq<char>>,
    pub passthrough_recipients: Option<Seq<char>>,
    pub filtermail_smtp_port: Reading,
    pub filtermail_smtp_port_incoming: Reading,
    pub postfix_reinject_port: Reading,
    pub postfix_reinject_port_incoming: Reading,
    pub mailboxes_dir: Option<Seq<char>>,
}

impl View for RawParams {
    type V = Params;

    open spec fn view(&self) -> Params {
        Params {
            mail_domain: optional_text(self.mail_domain),
            max_user_send_per_minute: reading(self.max_user_send_per_minute),
            max_message_size: reading(self.max_message_size),
            passthrough_senders: optional_text(self.passthrough_senders),
            passthrough_recipients: optional_text(self.passthrough_recipients),
            filtermail_smtp_port: reading(self.filtermail_smtp_port),
            filtermail_smtp_port_incoming: reading(self.filtermail_smtp_port_incoming),
            postfix_reinject_port: reading(self.postfix_reinject_port),
            postfix_reinject_port_incoming: reading(self.postfix_reinject_port_incoming),
            mailboxes_dir: optional_text(self.mailboxes_dir),
        }
    }
}

/// The value of the option `key` of the `[params]` section.
pub open spec fn param(values: IniValues, key: Seq<char>) -> Option<Seq<char>> {
    stored_value(values, "params"@, key)
}

/// The options that the `[params]` section of `values` holds.
pub open spec fn params_of(values: IniValues) -> Params {
    Params {
        mail_domain: param(values, "mail_domain"@),
        max_user_send_per_minute: reading_of(param(values, "max_user_send_per_minute"@)),
        max_message_size: reading_of(param(values, "max_message_size"@)),
        passthrough_senders: param(values, "passthrough_senders"@),
        passthrough_recipients: param(values, "passthrough_recipients"@),
        filtermail_smtp_port: reading_of(param(values, "filtermail_smtp_port"@)),
        filtermail_smtp_port_incoming: reading_of(param(values, "filtermail_smtp_port_incoming"@)),
        postfix_reinject_port: reading_of(param(values, "postfix_reinject_port"@)),
        postfix_reinject_port_incoming: reading_of(
            param(values, "postfix_reinject_port_incoming"@),
        ),
        mailboxes_dir: param(values, "mailboxes_dir"@),
    }
}

/// The number that an optional option stands for: the default where the
/// option is absent or no number.
pub open spec fn number_or(value: Reading, default: u64) -> u64 {
    match value {
        Reading::Number(n) => n,
        _ => default,
    }
}

/// What is wrong with a port option, if anything: it is absent, or it is
/// no number that fits in sixteen bits.
pub open spec fn port_error(value: Reading, which: Required) -> Option<ConfigErrorView> {
    match value {
        Reading::Absent => Some(ConfigErrorView::Missing(which)),
        Reading::Number(n) => if n <= u16::MAX {
            None
        } else {
            Some(ConfigErrorView::InvalidPort(which))
        },
        Reading::Garbled => Some(ConfigErrorView::InvalidPort(which)),
    }
}

/// The first of `errors` that is one.
pub open spec fn first_of(errors: Seq<Option<ConfigErrorView>>) -> Option<ConfigErrorView>
    decreases errors.len(),
{
    if errors.len() == 0 {
        None
    } else if errors[0] is Some {
        errors[0]
    } else {
        first_of(errors.drop_first())
    }
}

/// Why the options make no configuration, if they do not: the first
/// required option, in the order domain, listening ports, downstream ports,
/// that is absent or no port.
pub open spec fn params_error(p: Params) -> Option<ConfigErrorView> {
    first_of(
        seq![
            if p.mail_domain is None {
                Some(ConfigErrorView::Missing(Required::MailDomain))
            } else {
                None
            },
            port_error(p.filtermail_smtp_port, Required::FiltermailSmtpPort),
            port_error(p.filtermail_smtp_port_incoming, Required::FiltermailSmtpPortIncoming),
            port_error(p.postfix_reinject_port, Required::PostfixReinjectPort),
            port_error(p.postfix_reinject_port_incoming, Required::PostfixReinjectPortIncoming),
        ],
    )
}

/// The directory of the mailboxes where none is configured.
pub open spec fn default_mailboxes_dir(mail_domain: Seq<char>) -> Seq<char> {
    "/home/vmail/mail/"@ + mail_domain
}

/// `config` holds what the options say, with the defaults for what they
/// leave out: a rate ceiling of 60, a size limit of 31457280 bytes, no
/// passthrough entries, and the default directory of the mailboxes.
/// Numbers too large for their fields are cut to the field's width.
pub open spec fn holds(config: Config, p: Params) -> bool {
    &&& Some(config.mail_domain@) == p.mail_domain
    &&& config.max_user_send_per_minute == number_or(p.max_user_send_per_minute, 60) as int
        % 0x1_0000_0000
    &&& config.max_message_size == number_or(p.max_message_size, 31457280) as int % (usize::MAX
        + 1)
    &&& texts(config.passthrough_senders@) == words_of(p.passthrough_senders)
    &&& texts(config.passthrough_recipients@) == words_of(p.passthrough_recipients)
    &&& Reading::Number(config.filtermail_smtp_port as u64) == p.filtermail_smtp_port
    &&& Reading::Number(config.filtermail_smtp_port_incoming as u64)
        == p.filtermail_smtp_port_incoming
    &&& Reading::Number(config.postfix_reinject_port as u64) == p.postfix_reinject_port
    &&& Reading::Number(config.postfix_reinject_port_incoming as u64)
        == p.postfix_reinject_port_incoming
    &&& config.mailboxes_dir@ == match p.mailboxes_dir {
        Some(dir) => dir,
        None => default_mailboxes_dir(config.mail_domain@),
    }
}

/// Why `text` makes no configuration, if it does not.
pub open spec fn load_error(text: Seq<char>) -> Option<ConfigErrorView> {
    match ini_parsed(text) {
        Ok(values) => params_error(params_of(values)),
        Err(why) => Some(ConfigErrorView::Unreadable(why)),
    }
}

/// The file whose presence in a recipient's mailbox asks that unencrypted
/// incoming mail be turned away.
pub open spec fn marker_path_of(mailboxes_dir: Seq<char>, addr: Seq<char>) -> Seq<char> {
    mailboxes_dir + "/"@ + addr + "/enforceE2EEincoming"@
}

/// The words of `text`: the longest runs of characters that are no white
/// space, in order.
pub fn split_words(text: &str) -> (words: Vec<String>)
    ensures
        texts(words@) == words_from(text@, 0),
{
    let chars = chars_of(text);
    let mut words: Vec<String> = Vec::new();
    let mut i: usize = 0;
    assert(texts(words@) + words_from(text@, 0) =~= words_from(text@, 0));
    loop
        invariant
            i <= chars@.len(),
            chars@ == text@,
            texts(words@) + words_from(text@, i as int) == words_from(text@, 0),
        decreases chars@.len() - i,
    {
        let mut start = i;
        while start < chars.len() && chars[start].is_whitespace()
            invariant
                i <= start <= chars@.len(),
                skip_spaces(chars@, start as int) == skip_spaces(chars@, i as int),
            decreases chars@.len() - start,
        {
            start += 1;
        }
        let mut end = start;
        while end < chars.len() && !chars[end].is_whitespace()
            invariant
                start <= end <= chars@.len(),
                skip_word(chars@, end as int) == skip_word(chars@, start as int),
            decreases chars@.len() - end,
        {
            end += 1;
        }
        if start == end {
            assert(words_from(text@, i as int) =~= Seq::empty());
            assert(texts(words@) + Seq::empty() =~= texts(words@));
            return words;
        }
        let ghost before = texts(words@);
        let word = string_of(slice_subrange(chars.as_slice(), start, end));
        words.push(word);
        proof {
            assert(texts(words@) =~= before + seq![word@]);
            assert(before + (seq![word@] + words_from(text@, end as int)) =~= (before + seq![
                word@,
            ]) + words_from(text@, end as int));
        }
        i = end;
    }
}

/// The port that a port option holds.
pub fn port_from(value: &Result<Option<u64>, String>, which: Required) -> (r: Result<
    u16,
    ConfigError,
>)
    ensures
        match r {
            Ok(port) => port_error(reading(*value), which) is None && Reading::Number(port as u64)
                == reading(*value),
            Err(e) => port_error(reading(*value), which) == Some(e@),
        },
{
    match value {
        Ok(Some(n)) => {
            if *n <= u16::MAX as u64 {
                Ok(*n as u16)
            } else {
                Err(ConfigError::InvalidPort(which))
            }
        },
        Ok(None) => Err(ConfigError::Missing(which)),
        Err(_) => Err(ConfigError::InvalidPort(which)),
    }
}

/// The number that an optional option stands for.
pub fn number_from(value: &Result<Option<u64>, String>, default: u64) -> (n: u64)
    ensures
        n == number_or(reading(*value), default),
{
    match value {
        Ok(Some(n)) => *n,
        Ok(None) => default,
        Err(_) => default,
    }
}

/// The words of an optional list.
pub fn words_in(value: &Option<String>) -> (words: Vec<String>)
    ensures
        texts(words@) == words_of(optional_text(*value)),
{
    match value {
        Some(list) => split_words(list.as_str()),
        None => {
            let words: Vec<String> = Vec::new();
            assert(texts(words@) =~= Seq::empty());
            words
        },
    }
}

/// Reads the options of the `[params]` section out of the parser.
fn read_params(ini: &Ini) -> (raw: RawParams)
    ensures
        raw@ == params_of(ini_values(ini)),
{
    RawParams {
        mail_domain: ini_get(ini, "params", "mail_domain"),
        max_user_send_per_minute: ini_getuint(ini, "params", "max_user_send_per_minute"),
        max_message_size: ini_getuint(ini, "params", "max_message_size"),
        passthrough_senders: ini_get(ini, "params", "passthrough_senders"),
        passthrough_recipients: ini_get(ini, "params", "passthrough_recipients"),
        filtermail_smtp_port: ini_getuint(ini, "params", "filtermail_smtp_port"),
        filtermail_smtp_port_incoming: ini_getuint(ini, "params", "filtermail_smtp_port_incoming"),
        postfix_reinject_port: ini_getuint(ini, "params", "postfix_reinject_port"),
        postfix_reinject_port_incoming: ini_getuint(
            ini,
            "params",
            "postfix_reinject_port_incoming",
        ),
        mailboxes_dir: ini_get(ini, "params", "mailboxes_dir"),
    }
}

impl Config {
    /// Makes the configuration of the options. The domain and the four
    /// ports must be there; what else is left out gets its default.
    pub fn from_values(raw: RawParams) -> (r: Result<Config, ConfigError>)
        ensures
            params_error(raw@) == match r {
                Ok(_) => None,
                Err(e) => Some(e@),
            },
            r matches Ok(config) ==> holds(config, raw@),
    {
        proof {
            reveal_with_fuel(first_of, 6);
        }
        let mail_domain = match raw.mail_domain {
            Some(domain) => domain,
            None => {
                return Err(ConfigError::Missing(Required::MailDomain));
            },
        };
        let max_user_send_per_minute = (number_from(&raw.max_user_send_per_minute, 60)
            % 0x1_0000_0000) as u32;
        let max_message_size = (number_from(&raw.max_message_size, 31457280) as u128 % (
        usize::MAX as u128 + 1)) as usize;
        let passthrough_senders = words_in(&raw.passthrough_senders);
        let passthrough_recipients = words_in(&raw.passthrough_recipients);
        let filtermail_smtp_port = match port_from(
            &raw.filtermail_smtp_port,
            Required::FiltermailSmtpPort,
        ) {
            Ok(port) => port,
            Err(e) => {
                return Err(e);
            },
        };
        let filtermail_smtp_port_incoming = match port_from(
            &raw.filtermail_smtp_port_incoming,
            Required::FiltermailSmtpPortIncoming,
        ) {
            Ok(port) => port,
            Err(e) => {
                return Err(e);
            },
        };
        let postfix_reinject_port = match port_from(
            &raw.postfix_reinject_port,
            Required::PostfixReinjectPort,
        ) {
            Ok(port) => port,
            Err(e) => {
                return Err(e);
            },
        };
        let postfix_reinject_port_incoming = match port_from(
            &raw.postfix_reinject_port_incoming,
            Required::PostfixReinjectPortIncoming,
        ) {
            Ok(port) => port,
            Err(e) => {
                return Err(e);
            },
        };
        let mailboxes_dir = match raw.mailboxes_dir {
            Some(dir) => dir,
            None => String::from_str("/home/vmail/mail/").concat(mail_domain.as_str()),
        };
        Ok(
            Config {
                mail_domain,
                max_user_send_per_minute,
                max_message_size,
                passthrough_senders,
                passthrough_recipients,
                filtermail_smtp_port,
                filtermail_smtp_port_incoming,
                postfix_reinject_port,
                postfix_reinject_port_incoming,
                mailboxes_dir,
            },
        )
    }

    /// Loads the configuration from the text of its INI file. The text
    /// must be an INI file whose `[params]` section holds the domain and
    /// the four ports; what else it leaves out gets its default.
    pub fn from_file(contents: &str) -> (r: Result<Config, ConfigError>)
        ensures
            load_error(contents@) == match r {
                Ok(_) => None,
                Err(e) => Some(e@),
            },
            r matches Ok(config) ==> ini_parsed(contents@) matches Ok(values) && holds(
                config,
                params_of(values),
            ),
    {
        match ini_read(contents) {
            Ok(ini) => Config::from_values(read_params(&ini)),
            Err(why) => Err(ConfigError::Unreadable(why)),
        }
    }

    /// The path of the file whose presence in the mailbox of `addr` asks
    /// that unencrypted incoming mail for `addr` be turned away.
    pub fn marker_path(&self, addr: &str) -> (path: String)
        ensures
            path@ == marker_path_of(self.mailboxes_dir@, addr@),
    {
        let mut path = self.mailboxes_dir.clone();
        path.append("/");
        path.append(addr);
        path.append("/enforceE2EEincoming");
        path
    }

    /// Whether unencrypted incoming mail may reach `addr`: it may unless
    /// `addr` is among `enforcing`, the recipients in whose mailboxes the
    /// marker file was found.
    pub fn is_incoming_cleartext_ok(&self, addr: &str, enforcing: &[String]) -> (ok: bool)
        ensures
            ok == !texts(enforcing@).contains(addr@),
    {
        let mut j: usize = 0;
        while j < enforcing.len()
            invariant
                j <= enforcing@.len(),
                forall|k: int| 0 <= k < j ==> texts(enforcing@)[k] != addr@,
            decreases enforcing@.len() - j,
        {
            if same_text(enforcing[j].as_str(), addr) {
                assert(texts(enforcing@)[j as int] == addr@);
                return false;
            }
            j += 1;
        }
        true
    }
}

} // verus!
