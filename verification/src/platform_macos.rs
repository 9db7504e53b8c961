//! macOS integration: where browsers live, how a link reaches a running
//! Chromium browser, default-handler status and registration, and what
//! the application chooser answers.

use vstd::prelude::*;
use vstd::utf8::encode_utf8;

use crate::browser::OpenDisposition;
use crate::ids::BrowserId;
use crate::platform_api::PlatformError;
use crate::text::{contains_spec, trim_spec};
use crate::web_url::opt_text;

verus! {

/// Whether the router is the default web browser, and what handles
/// `http` and `https` links.
#[derive(Debug, Clone, PartialEq, Eq)]
pub struct SystemIntegrationStatus {
    pub http_handler: Option<String>,
    pub https_handler: Option<String>,
    pub is_default_browser: bool,
    pub accessibility_trusted: bool,
}

/// How a link is handed to a browser on macOS.
#[derive(Debug, Clone, Copy, PartialEq, Eq, Structural)]
pub enum BrowserLaunchStrategy {
    /// Scripting the browser's front window.
    ActiveWindowAutomation,
    /// Running the browser's executable with arguments.
    DirectExecutable,
}

/// An active window is reached by automation; existing and new windows
/// by running the executable.
pub fn browser_launch_strategy(disposition: OpenDisposition) -> (r: BrowserLaunchStrategy)
    ensures
        r == (if disposition == OpenDisposition::ActiveWindow {
            BrowserLaunchStrategy::ActiveWindowAutomation
        } else {
            BrowserLaunchStrategy::DirectExecutable
        }),
{
    match disposition {
        OpenDisposition::ActiveWindow => BrowserLaunchStrategy::ActiveWindowAutomation,
        OpenDisposition::ExistingWindow | OpenDisposition::NewWindow => {
            BrowserLaunchStrategy::DirectExecutable
        },
    }
}

/// The Chromium-family browsers, which take links from a second launch
/// through their singleton socket.
pub open spec fn is_chromium_id(id: Seq<char>) -> bool {
    id == "com.google.Chrome"@ || id == "com.microsoft.edgemac"@ || id == "com.brave.Browser"@
}

/// Whether the browser uses the Chromium singleton protocol.
pub fn uses_chromium_singleton(browser_id: &BrowserId) -> (r: bool)
    ensures
        r == is_chromium_id(browser_id@),
{
    let id = browser_id.as_str();
    crate::text::text_eq(id, "com.google.Chrome") || crate::text::text_eq(
        id,
        "com.microsoft.edgemac",
    ) || crate::text::text_eq(id, "com.brave.Browser")
}

/// The arguments of a singleton message, each preceded by a zero byte.
pub open spec fn zero_separated(args: Seq<Seq<char>>) -> Seq<u8>
    decreases args.len(),
{
    if args.len() == 0 {
        Seq::empty()
    } else {
        zero_separated(args.drop_last()) + seq![0u8] + encode_utf8(args.last())
    }
}

/// The bytes of `START` and a zero byte.
pub open spec fn start_marker() -> Seq<u8> {
    seq![83u8, 84u8, 65u8, 82u8, 84u8, 0u8]
}

/// The message that asks a running Chromium browser to act on a launch:
/// `START`, a zero byte, the working directory, then the executable and
/// each argument, each preceded by a zero byte.
pub open spec fn singleton_message(current_dir: Seq<char>, executable: Seq<char>, args: Seq<Seq<char>>) -> Seq<u8> {
    start_marker() + encode_utf8(current_dir) + zero_separated(seq![executable] + args)
}

/// Appends the UTF-8 bytes of `s`.
fn push_bytes(out: &mut Vec<u8>, s: &str)
    ensures
        final(out)@ == old(out)@ + encode_utf8(s@),
{
    let bytes = s.as_bytes();
    let ghost start = out@;
    let mut i: usize = 0;
    while i < bytes.len()
        invariant
            bytes@ == encode_utf8(s@),
            i <= bytes@.len(),
            out@ == start + bytes@.subrange(0, i as int),
        decreases bytes.len() - i,
    {
        out.push(bytes[i]);
        i = i + 1;
        assert(out@ =~= start + bytes@.subrange(0, i as int));
    }
    assert(bytes@.subrange(0, bytes@.len() as int) =~= bytes@);
}

/// Builds the singleton message for a launch.
pub fn encode_singleton_message(current_dir: &str, executable: &str, args: &Vec<String>) -> (r: Vec<u8>)
    ensures
        r@ == singleton_message(current_dir@, executable@, crate::text::string_texts(args@)),
{
    let mut message: Vec<u8> = Vec::new();
    message.push(83u8);
    message.push(84u8);
    message.push(65u8);
    message.push(82u8);
    message.push(84u8);
    message.push(0u8);
    assert(message@ =~= start_marker());
    push_bytes(&mut message, current_dir);
    let ghost head = start_marker() + encode_utf8(current_dir@);
    message.push(0u8);
    push_bytes(&mut message, executable);
    assert(zero_separated(seq![executable@]) =~= seq![0u8] + encode_utf8(executable@)) by {
        assert(seq![executable@].drop_last() =~= Seq::<Seq<char>>::empty());
        assert(seq![executable@].last() == executable@);
        assert(zero_separated(Seq::<Seq<char>>::empty()) =~= Seq::<u8>::empty());
    }
    assert(message@ =~= head + zero_separated(seq![executable@]));
    let ghost all = seq![executable@] + crate::text::string_texts(args@);
    let mut i: usize = 0;
    assert(all.subrange(0, 1) =~= seq![executable@]);
    while i < args.len()
        invariant
            i <= args@.len(),
            all == seq![executable@] + crate::text::string_texts(args@),
            message@ == head + zero_separated(all.subrange(0, i + 1)),
        decreases args.len() - i,
    {
        message.push(0u8);
        push_bytes(&mut message, args[i].as_str());
        assert(all.subrange(0, i + 2).drop_last() =~= all.subrange(0, i + 1));
        assert(all.subrange(0, i + 2).last() == args@[i as int]@);
        assert(message@ =~= head + zero_separated(all.subrange(0, i + 2)));
        i = i + 1;
    }
    assert(all.subrange(0, args@.len() as int + 1) =~= all);
    message
}

/// The pane of System Settings where the default browser is chosen.
pub fn default_browser_settings_url() -> (r: &'static str)
    ensures
        r@ == "x-apple.systempreferences:com.apple.Desktop-Settings.extension"@,
{
    "x-apple.systempreferences:com.apple.Desktop-Settings.extension"
}

/// Whether an optional handler is the given bundle.
pub open spec fn handler_is(handler: Option<Seq<char>>, bundle_id: Seq<char>) -> bool {
    handler == Some(bundle_id)
}

/// Whether both `http` and `https` are handled by the bundle.
pub fn is_default_handler(http: Option<&str>, https: Option<&str>, bundle_id: &str) -> (r: bool)
    ensures
        r == (handler_is(
            match http {
                Some(h) => Some(h@),
                None => None,
            },
            bundle_id@,
        ) && handler_is(
            match https {
                Some(h) => Some(h@),
                None => None,
            },
            bundle_id@,
        )),
{
    let a = match http {
        Some(h) => crate::text::text_eq(h, bundle_id),
        None => false,
    };
    let b = match https {
        Some(h) => crate::text::text_eq(h, bundle_id),
        None => false,
    };
    a && b
}

/// The system's registry of default URL-scheme handlers.
pub trait HandlerRegistry {
    /// Asks that `bundle_id` handle `scheme`.
    fn set_handler(&mut self, scheme: &str, bundle_id: &str) -> Result<(), String>;

    /// The bundle that handles `scheme` now.
    fn get_handler(&mut self, scheme: &str) -> Option<String>;
}

/// The message for a scheme whose registration failed.
pub open spec fn register_failure_message(scheme: Seq<char>, error: Seq<char>) -> Seq<char> {
    "cannot register "@ + scheme + " handler: "@ + error
}

/// The message for a scheme whose handler is not the bundle afterwards.
pub open spec fn verify_failure_message(scheme: Seq<char>, bundle_id: Seq<char>, actual: Option<Seq<char>>) -> Seq<char> {
    scheme + " handler verification failed: expected "@ + bundle_id + ", found "@ + match actual {
        Some(a) => a,
        None => "none"@,
    }
}

/// The scheme a registration step is about: `http` first, then `https`.
pub open spec fn step_scheme(second: bool) -> Seq<char> {
    if second {
        "https"@
    } else {
        "http"@
    }
}

/// The scheme a registration step is about.
pub fn scheme_of(second: bool) -> (r: &'static str)
    ensures
        r@ == step_scheme(second),
{
    if second {
        "https"
    } else {
        "http"
    }
}

/// What a registration does next.
#[derive(Debug)]
pub enum RegistrationAction {
    /// Ask that the bundle handle the scheme (`https` where `true`), then
    /// call `after_request` with the answer.
    Request(bool),
    /// The request was refused with this error: read the scheme's handler,
    /// then call `after_confirm`.
    Confirm(bool, String),
    /// Read the scheme's handler, then call `after_verify`.
    Verify(bool),
    /// The registration is over.
    Done(Result<(), String>),
}

/// How far a registration still has to go; every step lowers it.
pub open spec fn registration_rank(a: RegistrationAction) -> nat {
    match a {
        RegistrationAction::Request(false) => 6,
        RegistrationAction::Confirm(false, _) => 5,
        RegistrationAction::Request(true) => 4,
        RegistrationAction::Confirm(true, _) => 3,
        RegistrationAction::Verify(false) => 2,
        RegistrationAction::Verify(true) => 1,
        RegistrationAction::Done(_) => 0,
    }
}

/// What follows a request that went through: the next scheme's request,
/// or, after `https`, checking `http`.
pub open spec fn after_request_spec(second: bool, r: RegistrationAction) -> bool {
    if second {
        r matches RegistrationAction::Verify(false)
    } else {
        r matches RegistrationAction::Request(true)
    }
}

/// Goes on after asking that the bundle handle a scheme: a refused request
/// is confirmed by reading the scheme's handler.
pub fn after_request(second: bool, requested: Result<(), String>) -> (r: RegistrationAction)
    ensures
        match requested {
            Ok(()) => after_request_spec(second, r),
            Err(e) => r matches RegistrationAction::Confirm(s, m) && s == second && m@ == e@,
        },
{
    match requested {
        Ok(()) => if second {
            RegistrationAction::Verify(false)
        } else {
            RegistrationAction::Request(true)
        },
        Err(e) => RegistrationAction::Confirm(second, e),
    }
}

/// Goes on after reading the handler of a scheme whose request was
/// refused: the refusal is forgiven where the handler is the bundle;
/// otherwise the registration fails naming the scheme and the error.
pub fn after_confirm(bundle_id: &str, second: bool, error: &str, actual: Option<String>) -> (r: RegistrationAction)
    ensures
        if actual matches Some(a) && a@ == bundle_id@ {
            after_request_spec(second, r)
        } else {
            r matches RegistrationAction::Done(Err(m)) && m@ == register_failure_message(
                step_scheme(second),
                error@,
            )
        },
{
    let verified = match &actual {
        Some(a) => crate::text::text_eq(a.as_str(), bundle_id),
        None => false,
    };
    if verified {
        after_request(second, Ok(()))
    } else {
        let mut m = String::from_str("cannot register ");
        m.append(scheme_of(second));
        m.append(" handler: ");
        m.append(error);
        RegistrationAction::Done(Err(m))
    }
}

/// Goes on after reading a scheme's handler once both requests are made:
/// both must be the bundle; the first that is not fails the registration,
/// naming what was found.
pub fn after_verify(bundle_id: &str, second: bool, actual: Option<String>) -> (r: RegistrationAction)
    ensures
        if actual matches Some(a) && a@ == bundle_id@ {
            if second {
                r matches RegistrationAction::Done(Ok(()))
            } else {
                r matches RegistrationAction::Verify(true)
            }
        } else {
            r matches RegistrationAction::Done(Err(m)) && m@ == verify_failure_message(
                step_scheme(second),
                bundle_id@,
                match actual {
                    Some(a) => Some(a@),
                    None => None,
                },
            )
        },
{
    let verified = match &actual {
        Some(a) => crate::text::text_eq(a.as_str(), bundle_id),
        None => false,
    };
    if verified {
        if second {
            RegistrationAction::Done(Ok(()))
        } else {
            RegistrationAction::Verify(true)
        }
    } else {
        let mut m = String::from_str(scheme_of(second));
        m.append(" handler verification failed: expected ");
        m.append(bundle_id);
        m.append(", found ");
        match &actual {
            Some(a) => m.append(a.as_str()),
            None => m.append("none"),
        }
        RegistrationAction::Done(Err(m))
    }
}

/// A registration's progress, as the contracts see it: the view of
/// `RegistrationAction`.
pub enum RegistrationState {
    Request(bool),
    Confirm(bool, Seq<char>),
    Verify(bool),
    Done(Result<(), Seq<char>>),
}

/// The texts of a registration result.
pub open spec fn result_text(r: Result<(), String>) -> Result<(), Seq<char>> {
    match r {
        Ok(()) => Ok(()),
        Err(m) => Err(m@),
    }
}

/// The view of a registration step.
pub open spec fn action_state(a: RegistrationAction) -> RegistrationState {
    match a {
        RegistrationAction::Request(s) => RegistrationState::Request(s),
        RegistrationAction::Confirm(s, e) => RegistrationState::Confirm(s, e@),
        RegistrationAction::Verify(s) => RegistrationState::Verify(s),
        RegistrationAction::Done(r) => RegistrationState::Done(result_text(r)),
    }
}

/// One exchange with the registry during a registration.
#[derive(Debug, PartialEq, Eq)]
pub enum RegistryExchange {
    /// Asked that the bundle (second field) handle the scheme (first
    /// field); the registry answered the third.
    Request(String, String, Result<(), String>),
    /// Read the handler of the scheme; the registry named the second.
    Read(String, Option<String>),
}

/// The texts of a registry exchange.
pub enum ExchangeView {
    Request(Seq<char>, Seq<char>, Result<(), Seq<char>>),
    Read(Seq<char>, Option<Seq<char>>),
}

/// The view of a registry exchange.
pub open spec fn exchange_view(x: RegistryExchange) -> ExchangeView {
    match x {
        RegistryExchange::Request(scheme, bundle, answer) => ExchangeView::Request(scheme@, bundle@, result_text(answer)),
        RegistryExchange::Read(scheme, answer) => ExchangeView::Read(
            scheme@,
            match answer {
                Some(a) => Some(a@),
                None => None,
            },
        ),
    }
}

/// The views of a list of registry exchanges.
pub open spec fn exchange_views(v: Seq<RegistryExchange>) -> Seq<ExchangeView> {
    v.map_values(|x: RegistryExchange| exchange_view(x))
}

/// Where a registration goes once the request for a scheme went through
/// (or was forgiven): the `https` request after `http`, then reading the
/// `http` handler back.
pub open spec fn state_after_request(second: bool) -> RegistrationState {
    if second {
        RegistrationState::Verify(false)
    } else {
        RegistrationState::Request(true)
    }
}

/// One step of registering `bundle`: the exchange the step calls for, and
/// where its answer leads. A request for the step's scheme that went
/// through moves on; a refused one is confirmed by reading the scheme's
/// handler, which moves on only where it names the bundle and otherwise
/// fails naming the scheme and the refusal. Once both requests are made,
/// the `http` and then the `https` handler are read back; each must name
/// the bundle, else the registration fails naming what was found. Nothing
/// where the exchange is not the one the step calls for.
pub open spec fn registration_step(bundle: Seq<char>, a: RegistrationState, x: ExchangeView) -> Option<RegistrationState> {
    match a {
        RegistrationState::Request(s) => match x {
            ExchangeView::Request(scheme, b, answer) => if scheme == step_scheme(s) && b == bundle {
                Some(
                    match answer {
                        Ok(()) => state_after_request(s),
                        Err(e) => RegistrationState::Confirm(s, e),
                    },
                )
            } else {
                None
            },
            ExchangeView::Read(_, _) => None,
        },
        RegistrationState::Confirm(s, e) => match x {
            ExchangeView::Read(scheme, actual) => if scheme == step_scheme(s) {
                Some(
                    if actual == Some(bundle) {
                        state_after_request(s)
                    } else {
                        RegistrationState::Done(Err(register_failure_message(step_scheme(s), e)))
                    },
                )
            } else {
                None
            },
            ExchangeView::Request(_, _, _) => None,
        },
        RegistrationState::Verify(s) => match x {
            ExchangeView::Read(scheme, actual) => if scheme == step_scheme(s) {
                Some(
                    if actual == Some(bundle) {
                        if s {
                            RegistrationState::Done(Ok(()))
                        } else {
                            RegistrationState::Verify(true)
                        }
                    } else {
                        RegistrationState::Done(
                            Err(verify_failure_message(step_scheme(s), bundle, actual)),
                        )
                    },
                )
            } else {
                None
            },
            ExchangeView::Request(_, _, _) => None,
        },
        RegistrationState::Done(_) => None,
    }
}

/// Where registering `bundle` stands after the exchanges, in order, from
/// the `http` request on; nothing where they are not the ones the
/// registration calls for.
pub open spec fn registration_reached(bundle: Seq<char>, exchanges: Seq<ExchangeView>) -> Option<RegistrationState>
    decreases exchanges.len(),
{
    if exchanges.len() == 0 {
        Some(RegistrationState::Request(false))
    } else {
        match registration_reached(bundle, exchanges.drop_last()) {
            Some(a) => registration_step(bundle, a, exchanges.last()),
            None => None,
        }
    }
}

/// Whether some answers of a registry lead registering `bundle` to
/// `result`.
pub open spec fn registration_possible(bundle: Seq<char>, result: Result<(), Seq<char>>) -> bool {
    exists|exchanges: Seq<ExchangeView>|
        #[trigger] registration_reached(bundle, exchanges) == Some(RegistrationState::Done(result))
}

/// What a registration did: its result, and its exchanges with the
/// registry in order.
pub struct Registration {
    pub result: Result<(), String>,
    pub exchanges: Vec<RegistryExchange>,
}

/// A copy of a registry answer.
fn copy_answer(r: &Result<(), String>) -> (c: Result<(), String>)
    ensures
        result_text(c) == result_text(*r),
{
    match r {
        Ok(()) => Ok(()),
        Err(e) => Err(e.clone()),
    }
}

/// A copy of a handler read from the registry.
fn copy_handler(h: &Option<String>) -> (c: Option<String>)
    ensures
        c == *h,
{
    match h {
        Some(s) => Some(s.clone()),
        None => None,
    }
}

/// Makes the bundle the handler of `http` and `https` through the
/// registry: asks for each in turn (a refused request counts only where
/// the scheme's handler is not the bundle afterwards), then checks that
/// both handlers are the bundle. Each answer of the registry is judged by
/// `after_request`, `after_confirm` and `after_verify`. The registry is an
/// outside service, so the contract ties the result to the exchanges
/// that were made, which are handed back: the result is where those
/// exchanges lead (`registration_reached`).
pub fn register_default_handlers<R: HandlerRegistry>(bundle_id: &str, registry: &mut R) -> (r: Registration)
    ensures
        registration_reached(bundle_id@, exchange_views(r.exchanges@)) == Some(
            RegistrationState::Done(result_text(r.result)),
        ),
{
    let mut action = RegistrationAction::Request(false);
    let mut exchanges: Vec<RegistryExchange> = Vec::new();
    loop
        invariant
            registration_reached(bundle_id@, exchange_views(exchanges@)) == Some(action_state(action)),
        decreases registration_rank(action),
    {
        let ghost before = exchange_views(exchanges@);
        match action {
            RegistrationAction::Request(second) => {
                let requested = registry.set_handler(scheme_of(second), bundle_id);
                exchanges.push(
                    RegistryExchange::Request(
                        String::from_str(scheme_of(second)),
                        String::from_str(bundle_id),
                        copy_answer(&requested),
                    ),
                );
                assert(exchange_views(exchanges@).drop_last() =~= before);
                action = after_request(second, requested);
            },
            RegistrationAction::Confirm(second, error) => {
                let actual = registry.get_handler(scheme_of(second));
                exchanges.push(RegistryExchange::Read(String::from_str(scheme_of(second)), copy_handler(&actual)));
                assert(exchange_views(exchanges@).drop_last() =~= before);
                action = after_confirm(bundle_id, second, error.as_str(), actual);
            },
            RegistrationAction::Verify(second) => {
                let actual = registry.get_handler(scheme_of(second));
                exchanges.push(RegistryExchange::Read(String::from_str(scheme_of(second)), copy_handler(&actual)));
                assert(exchange_views(exchanges@).drop_last() =~= before);
                action = after_verify(bundle_id, second, actual);
            },
            RegistrationAction::Done(result) => {
                return Registration { result, exchanges };
            },
        }
    }
}

/// A registration succeeds only when its last two exchanges read the
/// `http` and then the `https` handler back and both named the bundle.
pub proof fn law_registration_succeeds_only_when_both_read_back(bundle: Seq<char>, exchanges: Seq<ExchangeView>)
    requires
        registration_reached(bundle, exchanges) == Some(RegistrationState::Done(Ok(()))),
    ensures
        exchanges.len() >= 2,
        exchanges[exchanges.len() - 2] == ExchangeView::Read("http"@, Some(bundle)),
        exchanges[exchanges.len() - 1] == ExchangeView::Read("https"@, Some(bundle)),
{
    let p = exchanges.drop_last();
    assert(registration_reached(bundle, p) == Some(RegistrationState::Verify(true)));
    assert(p.len() > 0);
    let pp = p.drop_last();
    assert(registration_reached(bundle, pp) == Some(RegistrationState::Verify(false)));
    assert(exchanges[exchanges.len() - 2] == p.last());
}

/// The answer of the application chooser: a successful run gives the
/// chosen bundle (trimmed; an empty one is an error); a run that failed
/// with code -128 was cancelled and chooses nothing; any other failure is
/// an error with the chooser's message.
pub open spec fn chooser_answer(success: bool, stdout: Seq<char>, stderr: Seq<char>) -> Result<Option<Seq<char>>, Seq<char>> {
    if success {
        if trim_spec(stdout).len() == 0 {
            Err("application chooser returned an empty bundle ID"@)
        } else {
            Ok(Some(trim_spec(stdout)))
        }
    } else if contains_spec(trim_spec(stderr), "(-128)"@) {
        Ok(None)
    } else {
        Err("application chooser failed: "@ + trim_spec(stderr))
    }
}

/// Reads the application chooser's answer from its exit status and output.
pub fn parse_application_chooser_output(success: bool, stdout: &str, stderr: &str) -> (r: Result<Option<String>, PlatformError>)
    ensures
        match chooser_answer(success, stdout@, stderr@) {
            Ok(Some(b)) => r matches Ok(Some(s)) && s@ == b,
            Ok(None) => r matches Ok(None),
            Err(m) => r matches Err(PlatformError::Failed(e)) && e@ == m,
        },
{
    if success {
        let bundle_id = crate::text::trim(stdout);
        if bundle_id.unicode_len() == 0 {
            Err(PlatformError::Failed(String::from_str("application chooser returned an empty bundle ID")))
        } else {
            Ok(Some(bundle_id.to_owned()))
        }
    } else {
        let message = crate::text::trim(stderr);
        if crate::text::contains_text(message, "(-128)") {
            Ok(None)
        } else {
            let mut m = String::from_str("application chooser failed: ");
            m.append(message);
            Err(PlatformError::Failed(m))
        }
    }
}


/// What reading one of a profile's singleton links gave.
pub enum SingletonLink {
    /// The link's target.
    Found(String),
    /// There is no such link.
    Missing,
    /// The link could not be read, for this reason.
    Unreadable(String),
}

/// Whether a running browser's singleton socket may be used: where the
/// socket link (first) or the profile's cookie link (then) is missing, no
/// browser runs on the profile (`Ok(false)`); where one could not be read,
/// that is the error. Only where both were found does the cookie beside
/// the socket count: it must have been read and name the profile's cookie
/// (`Ok(true)`), else the check fails.
pub open spec fn singleton_verdict_spec(
    socket: SingletonLink,
    local_cookie: SingletonLink,
    remote_cookie: Result<Seq<char>, Seq<char>>,
) -> Result<bool, Seq<char>> {
    match socket {
        SingletonLink::Missing => Ok(false),
        SingletonLink::Unreadable(e) => Err(e@),
        SingletonLink::Found(_) => match local_cookie {
            SingletonLink::Missing => Ok(false),
            SingletonLink::Unreadable(e) => Err(e@),
            SingletonLink::Found(local) => match remote_cookie {
                Ok(remote) => if remote == local@ {
                    Ok(true)
                } else {
                    Err("Chrome singleton cookie verification failed"@)
                },
                Err(e) => Err(e),
            },
        },
    }
}

/// Judges a profile's singleton links (see `singleton_verdict_spec`); the
/// cookie beside the socket is looked at only where both links were found.
pub fn singleton_verdict(socket: &SingletonLink, local_cookie: &SingletonLink, remote_cookie: &Result<String, String>) -> (r: Result<bool, String>)
    ensures
        match (r, singleton_verdict_spec(
            *socket,
            *local_cookie,
            match remote_cookie {
                Ok(c) => Ok(c@),
                Err(e) => Err(e@),
            },
        )) {
            (Ok(a), Ok(b)) => a == b,
            (Err(m), Err(e)) => m@ == e,
            _ => false,
        },
{
    match socket {
        SingletonLink::Missing => Ok(false),
        SingletonLink::Unreadable(e) => Err(e.clone()),
        SingletonLink::Found(_) => match local_cookie {
            SingletonLink::Missing => Ok(false),
            SingletonLink::Unreadable(e) => Err(e.clone()),
            SingletonLink::Found(local) => match remote_cookie {
                Ok(remote) => if crate::text::text_eq(remote.as_str(), local.as_str()) {
                    Ok(true)
                } else {
                    Err(String::from_str("Chrome singleton cookie verification failed"))
                },
                Err(e) => Err(e.clone()),
            },
        },
    }
}

/// What a running Chromium browser answered on its singleton socket: `ACK`
/// means it took the link, `SHUTDOWN` that it is going away (the link is
/// then launched normally); anything else is an error that quotes the
/// answer.
pub fn singleton_reply(response: &[u8]) -> (r: Result<bool, String>)
    ensures
        response@ == seq![65u8, 67u8, 75u8] ==> r == Ok::<bool, String>(true),
        response@ == seq![83u8, 72u8, 85u8, 84u8, 68u8, 79u8, 87u8, 78u8] ==> r == Ok::<
            bool,
            String,
        >(false),
        response@ != seq![65u8, 67u8, 75u8] && response@ != seq![
            83u8,
            72u8,
            85u8,
            84u8,
            68u8,
            79u8,
            87u8,
            78u8,
        ] ==> (r matches Err(m) && (vstd::utf8::valid_utf8(response@) ==> m@
            == "unexpected Chrome singleton response: "@ + vstd::utf8::decode_utf8(response@))),
{
    let ack: [u8; 3] = [65u8, 67u8, 75u8];
    let shutdown: [u8; 8] = [83u8, 72u8, 85u8, 84u8, 68u8, 79u8, 87u8, 78u8];
    if bytes_eq(response, &ack) {
        assert(response@ =~= seq![65u8, 67u8, 75u8]);
        return Ok(true);
    }
    if bytes_eq(response, &shutdown) {
        assert(response@ =~= seq![83u8, 72u8, 85u8, 84u8, 68u8, 79u8, 87u8, 78u8]);
        return Ok(false);
    }
    assert(ack@ =~= seq![65u8, 67u8, 75u8]);
    assert(shutdown@ =~= seq![83u8, 72u8, 85u8, 84u8, 68u8, 79u8, 87u8, 78u8]);
    let mut m = String::from_str("unexpected Chrome singleton response: ");
    let text = lossy_text(response);
    m.append(text.as_str());
    Err(m)
}

/// Whether two byte strings are equal.
fn bytes_eq(a: &[u8], b: &[u8]) -> (r: bool)
    ensures
        r == (a@ == b@),
{
    if a.len() != b.len() {
        return false;
    }
    let mut i: usize = 0;
    while i < a.len()
        invariant
            a@.len() == b@.len(),
            i <= a@.len(),
            forall|j: int| 0 <= j < i ==> a@[j] == b@[j],
        decreases a.len() - i,
    {
        if a[i] != b[i] {
            return false;
        }
        i = i + 1;
    }
    assert(a@ =~= b@);
    true
}

/// Calls `String::from_utf8_lossy`: valid UTF-8 is decoded as it is;
/// nothing is claimed of what invalid bytes become.
#[verifier::external_body]
fn lossy_text(bytes: &[u8]) -> (r: String)
    ensures
        vstd::utf8::valid_utf8(bytes@) ==> r@ == vstd::utf8::decode_utf8(bytes@),
{
    String::from_utf8_lossy(bytes).into_owned()
}

/// The AppleScript that opens its argument in a new tab of Chrome's front
/// window, or in a new window where Chrome has none.
pub open spec fn chrome_front_window_script() -> Seq<char> {
    "\non run argv\n    set targetUrl to item 1 of argv\n    tell application \"Google Chrome\"\n        if (count windows) is 0 then\n            open location targetUrl\n        else\n            tell window 1 to make new tab with properties {URL:targetUrl}\n        end if\n        activate\n    end tell\nend run\n"@
}

/// The command that opens `url` in the active window of a browser:
/// Chrome is driven by AppleScript; any other browser is asked through
/// `open -b`.
pub open spec fn active_window_command_spec(browser_id: Seq<char>, url: Seq<char>) -> (Seq<char>, Seq<Seq<char>>) {
    if browser_id == "com.google.Chrome"@ {
        ("/usr/bin/osascript"@, seq!["-e"@, chrome_front_window_script(), url])
    } else {
        ("/usr/bin/open"@, seq!["-b"@, browser_id, url])
    }
}

/// The program and arguments that open `url` in the active window of a
/// browser.
pub fn active_window_command(browser_id: &BrowserId, url: &str) -> (r: (String, Vec<String>))
    ensures
        (r.0@, crate::text::string_texts(r.1@)) == active_window_command_spec(browser_id@, url@),
{
    let mut args: Vec<String> = Vec::new();
    if crate::text::text_eq(browser_id.as_str(), "com.google.Chrome") {
        args.push(String::from_str("-e"));
        args.push(String::from_str("\non run argv\n    set targetUrl to item 1 of argv\n    tell application \"Google Chrome\"\n        if (count windows) is 0 then\n            open location targetUrl\n        else\n            tell window 1 to make new tab with properties {URL:targetUrl}\n        end if\n        activate\n    end tell\nend run\n"));
        args.push(url.to_owned());
        assert(crate::text::string_texts(args@) =~= seq!["-e"@, chrome_front_window_script(), url@]);
        (String::from_str("/usr/bin/osascript"), args)
    } else {
        args.push(String::from_str("-b"));
        args.push(browser_id.as_str().to_owned());
        args.push(url.to_owned());
        assert(crate::text::string_texts(args@) =~= seq!["-b"@, browser_id@, url@]);
        (String::from_str("/usr/bin/open"), args)
    }
}

/// The outcome of the Chrome automation, from its exit status and error
/// output.
pub fn automation_outcome(success: bool, stderr: &str) -> (r: Result<(), PlatformError>)
    ensures
        success ==> r is Ok,
        !success ==> (r matches Err(PlatformError::Failed(m)) && m@ == "Chrome automation failed: "@
            + trim_spec(stderr@)),
{
    if success {
        Ok(())
    } else {
        let mut m = String::from_str("Chrome automation failed: ");
        m.append(crate::text::trim(stderr));
        Err(PlatformError::Failed(m))
    }
}

/// The macOS platform, given the user's home directory.
#[derive(Debug, Clone)]
pub struct MacOsPlatformAdapter {
    home: Option<String>,
}

/// `base` joined with the relative path `rel`.
pub open spec fn path_join(base: Seq<char>, rel: Seq<char>) -> Seq<char> {
    if base.len() == 0 {
        rel
    } else if base.last() == '/' {
        base + rel
    } else {
        base + seq!['/'] + rel
    }
}

/// Joins a relative path to a directory (`Path::join`).
pub fn join_path(base: &str, rel: &str) -> (r: String)
    ensures
        r@ == path_join(base@, rel@),
{
    let n = base.unicode_len();
    if n == 0 {
        return rel.to_owned();
    }
    let mut s = String::from_str(base);
    if base.get_char(n - 1) != '/' {
        s.append("/");
        proof {
            reveal_strlit("/");
            assert(s@ =~= base@ + seq!['/']);
        }
    }
    s.append(rel);
    s
}

/// The executable of a supported browser.
pub open spec fn macos_executable(id: Seq<char>) -> Option<Seq<char>> {
    if id == "com.google.Chrome"@ {
        Some("/Applications/Google Chrome.app/Contents/MacOS/Google Chrome"@)
    } else if id == "com.microsoft.edgemac"@ {
        Some("/Applications/Microsoft Edge.app/Contents/MacOS/Microsoft Edge"@)
    } else if id == "com.brave.Browser"@ {
        Some("/Applications/Brave Browser.app/Contents/MacOS/Brave Browser"@)
    } else if id == "org.mozilla.firefox"@ {
        Some("/Applications/Firefox.app/Contents/MacOS/firefox"@)
    } else {
        None
    }
}

/// Where a supported browser keeps its data, under the user's
/// `Library/Application Support`.
pub open spec fn macos_data_subdir(id: Seq<char>) -> Option<Seq<char>> {
    if id == "com.google.Chrome"@ {
        Some("Google/Chrome"@)
    } else if id == "com.microsoft.edgemac"@ {
        Some("Microsoft Edge"@)
    } else if id == "com.brave.Browser"@ {
        Some("BraveSoftware/Brave-Browser"@)
    } else if id == "org.mozilla.firefox"@ {
        Some("Firefox"@)
    } else {
        None
    }
}

impl MacOsPlatformAdapter {
    /// The user's home directory.
    pub closed spec fn home_text(&self) -> Option<Seq<char>> {
        opt_text(self.home)
    }

    /// The platform for the given home directory (`HOME`).
    pub fn new(home: Option<String>) -> (r: Self)
        ensures
            r.home_text() == opt_text(home),
    {
        MacOsPlatformAdapter { home }
    }

    /// The executable of a supported browser, at its standard location.
    pub fn browser_executable(&self, browser_id: &BrowserId) -> (r: Option<String>)
        ensures
            opt_text(r) == macos_executable(browser_id@),
    {
        let id = browser_id.as_str();
        if crate::text::text_eq(id, "com.google.Chrome") {
            Some(String::from_str("/Applications/Google Chrome.app/Contents/MacOS/Google Chrome"))
        } else if crate::text::text_eq(id, "com.microsoft.edgemac") {
            Some(String::from_str("/Applications/Microsoft Edge.app/Contents/MacOS/Microsoft Edge"))
        } else if crate::text::text_eq(id, "com.brave.Browser") {
            Some(String::from_str("/Applications/Brave Browser.app/Contents/MacOS/Brave Browser"))
        } else if crate::text::text_eq(id, "org.mozilla.firefox") {
            Some(String::from_str("/Applications/Firefox.app/Contents/MacOS/firefox"))
        } else {
            None
        }
    }

    /// Where a supported browser keeps its data:
    /// `<home>/Library/Application Support/<browser's directory>`.
    pub fn browser_data_dir(&self, browser_id: &BrowserId) -> (r: Option<String>)
        ensures
            match (macos_data_subdir(browser_id@), self.home_text()) {
                (Some(sub), Some(home)) => r matches Some(d) && d@ == path_join(
                    path_join(home, "Library/Application Support"@),
                    sub,
                ),
                _ => r is None,
            },
    {
        let id = browser_id.as_str();
        let relative = if crate::text::text_eq(id, "com.google.Chrome") {
            "Google/Chrome"
        } else if crate::text::text_eq(id, "com.microsoft.edgemac") {
            "Microsoft Edge"
        } else if crate::text::text_eq(id, "com.brave.Browser") {
            "BraveSoftware/Brave-Browser"
        } else if crate::text::text_eq(id, "org.mozilla.firefox") {
            "Firefox"
        } else {
            return None;
        };
        let home = match &self.home {
            Some(h) => h,
            None => return None,
        };
        let support = join_path(home.as_str(), "Library/Application Support");
        Some(join_path(support.as_str(), relative))
    }

    /// Makes the bundle the default browser (`register_default_handlers`),
    /// its message becoming a platform failure. Its result is one that some
    /// answers of the registry lead to.
    pub fn set_default_browser<R: HandlerRegistry>(&self, bundle_id: &str, registry: &mut R) -> (r: Result<(), PlatformError>)
        ensures
            match r {
                Ok(()) => registration_possible(bundle_id@, Ok(())),
                Err(e) => e matches PlatformError::Failed(m) && registration_possible(bundle_id@, Err(m@)),
            },
    {
        let registration = register_default_handlers(bundle_id, registry);
        let ghost ex = exchange_views(registration.exchanges@);
        assert(registration_reached(bundle_id@, ex) == Some(
            RegistrationState::Done(result_text(registration.result)),
        ));
        match registration.result {
            Ok(()) => Ok(()),
            Err(m) => Err(PlatformError::Failed(m)),
        }
    }

    /// The outcome of opening the default-browser pane of System Settings,
    /// given whether `/usr/bin/open` could be started.
    pub fn open_default_browser_settings(&self, started: Result<(), String>) -> (r: Result<(), PlatformError>)
        ensures
            match started {
                Ok(()) => r is Ok,
                Err(e) => r matches Err(PlatformError::Failed(m)) && m@
                    == "cannot open default browser settings: "@ + e@,
            },
    {
        match started {
            Ok(()) => Ok(()),
            Err(e) => {
                let mut m = String::from_str("cannot open default browser settings: ");
                m.append(e.as_str());
                Err(PlatformError::Failed(m))
            },
        }
    }

    /// The Accessibility pane of System Settings.
    pub fn accessibility_settings_url(&self) -> (r: &'static str)
        ensures
            r@ == "x-apple.systempreferences:com.apple.preference.security?Privacy_Accessibility"@,
    {
        "x-apple.systempreferences:com.apple.preference.security?Privacy_Accessibility"
    }

    /// The outcome of opening the Accessibility pane of System Settings,
    /// given whether `/usr/bin/open` could be started.
    pub fn open_accessibility_settings(&self, started: Result<(), String>) -> (r: Result<(), PlatformError>)
        ensures
            match started {
                Ok(()) => r is Ok,
                Err(e) => r matches Err(PlatformError::Failed(m)) && m@
                    == "cannot open Accessibility settings: "@ + e@,
            },
    {
        match started {
            Ok(()) => Ok(()),
            Err(e) => {
                let mut m = String::from_str("cannot open Accessibility settings: ");
                m.append(e.as_str());
                Err(PlatformError::Failed(m))
            },
        }
    }

    /// The integration status, from what the system reports: the handlers
    /// of `http` and `https` and whether Accessibility access is granted.
    pub fn system_status(&self, bundle_id: &str, http_handler: Option<String>, https_handler: Option<String>, accessibility_trusted: bool) -> (r: SystemIntegrationStatus)
        ensures
            opt_text(r.http_handler) == opt_text(http_handler),
            opt_text(r.https_handler) == opt_text(https_handler),
            r.is_default_browser == (handler_is(opt_text(http_handler), bundle_id@) && handler_is(
                opt_text(https_handler),
                bundle_id@,
            )),
            r.accessibility_trusted == accessibility_trusted,
    {
        let is_default = is_default_handler(
            match &http_handler {
                Some(h) => Some(h.as_str()),
                None => None,
            },
            match &https_handler {
                Some(h) => Some(h.as_str()),
                None => None,
            },
            bundle_id,
        );
        SystemIntegrationStatus {
            http_handler,
            https_handler,
            is_default_browser: is_default,
            accessibility_trusted,
        }
    }
}

} // verus!
