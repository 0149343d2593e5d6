//! Finding the control-plane endpoint: the default address of this host, its
//! name, and the user's word.
use crate::cluster;
use crate::cluster::InitOptions;
use crate::cmd;
use crate::cmd::{Command, Outcome};
use crate::config::Host;
use crate::error::Error;
use crate::plan;
use crate::plan::{Plan, Step, StepView, Topic};
use crate::text;
use vstd::prelude::*;

verus! {

// ── Addresses ────────────────────────────────────────────────────────────────

/// Whether `c` is a decimal digit.
pub open spec fn is_digit(c: char) -> bool {
    '0' <= c <= '9'
}

/// The number that decimal digits stand for.
pub open spec fn number(digits: Seq<char>) -> int
    decreases digits.len(),
{
    if digits.len() == 0 {
        0
    } else {
        number(digits.drop_last()) * 10 + (digits.last() as int - '0' as int)
    }
}

/// Whether a text is one part of a dotted address: a number of at most 255, in
/// decimal, without leading zeros.
pub open spec fn is_octet(part: Seq<char>) -> bool {
    &&& 1 <= part.len() <= 3
    &&& forall|i: int| 0 <= i < part.len() ==> is_digit(#[trigger] part[i])
    &&& part.len() > 1 ==> part[0] != '0'
    &&& number(part) <= 255
}

/// Whether a text is an IPv4 address in dotted notation.
pub open spec fn is_ipv4(address: Seq<char>) -> bool {
    &&& text::pieces(address, '.').len() == 4
    &&& forall|i: int|
        0 <= i < text::pieces(address, '.').len() ==> is_octet(
            #[trigger] text::pieces(address, '.')[i],
        )
}

/// Whether a dotted address is in the block `127.0.0.0/8`.
pub open spec fn is_loopback(address: Seq<char>) -> bool {
    text::pieces(address, '.')[0] == "127"@
}

/// Decides whether a text is one part of a dotted address.
pub fn octet(part: &str) -> (r: bool)
    ensures
        r == is_octet(part@),
{
    let chars = text::chars_of(part);
    if chars.len() == 0 || chars.len() > 3 {
        return false;
    }
    let mut value: u32 = 0;
    for i in 0..chars.len()
        invariant
            chars@ == part@,
            1 <= chars@.len() <= 3,
            forall|j: int| 0 <= j < i ==> is_digit(#[trigger] part@[j]),
            value == number(part@.take(i as int)),
            i == 0 ==> value == 0,
            i <= 1 ==> value <= 9,
            i <= 2 ==> value <= 99,
            value <= 999,
    {
        let c = chars[i];
        if c < '0' || c > '9' {
            assert(!is_digit(part@[i as int]));
            return false;
        }
        assert(part@.take(i + 1).drop_last() =~= part@.take(i as int));
        value = value * 10 + (c as u32 - '0' as u32);
    }
    assert(part@.take(part@.len() as int) =~= part@);
    (chars.len() == 1 || chars[0] != '0') && value <= 255
}

/// Decides whether a text is an IPv4 address other than a loopback address.
pub fn usable(address: &str) -> (r: bool)
    ensures
        r == (is_ipv4(address@) && !is_loopback(address@)),
{
    let parts = text::split_at_char(address, '.');
    let ghost all = text::pieces(address@, '.');
    assert(all == text::texts(parts@));
    if parts.len() != 4 {
        return false;
    }
    for i in 0..parts.len()
        invariant
            all == text::pieces(address@, '.'),
            all == text::texts(parts@),
            forall|j: int| 0 <= j < i ==> is_octet(#[trigger] all[j]),
    {
        if !octet(parts[i].as_str()) {
            assert(!is_octet(all[i as int]));
            return false;
        }
    }
    !text::same(parts[0].as_str(), "127")
}

/// The address that a line of `ip -4 -o addr show` gives: what stands before
/// the `/` of the word behind `inet`, if that is a usable address.
pub open spec fn line_address(line: Seq<char>) -> Option<Seq<char>> {
    match text::word_after(text::words(line), "inet"@) {
        Some(cidr) => {
            let address = cidr.take(text::run_before(cidr, '/') as int);
            if is_ipv4(address) && !is_loopback(address) {
                Some(address)
            } else {
                None
            }
        },
        None => None,
    }
}

/// The first address that a list of lines gives.
pub open spec fn first_address(lines: Seq<Seq<char>>) -> Option<Seq<char>>
    decreases lines.len(),
{
    if lines.len() == 0 {
        None
    } else if line_address(lines[0]) is Some {
        line_address(lines[0])
    } else {
        first_address(lines.skip(1))
    }
}

/// Reads the address of one line of `ip -4 -o addr show`.
fn read_line_address(line: &str) -> (r: Option<String>)
    ensures
        text::optional(r) == line_address(line@),
{
    let words = text::split_words(line);
    match text::find_word_after(&words, "inet") {
        Some(cidr) => {
            let parts = text::split_at_char(cidr, '/');
            proof {
                text::lemma_run_before(cidr@, '/');
                assert(text::texts(parts@)[0] == parts@[0]@);
                assert(parts@[0]@ =~= cidr@.take(text::run_before(cidr@, '/') as int));
            }
            if usable(parts[0].as_str()) {
                Some(parts[0].clone())
            } else {
                None
            }
        },
        None => None,
    }
}

/// Reads the first usable address that `ip -4 -o addr show` prints.
pub fn read_address(output: &str) -> (r: Option<String>)
    ensures
        text::optional(r) == first_address(text::lines(output@)),
{
    let lines = text::split_lines(output);
    let ghost all = text::texts(lines@);
    assert(all.skip(0) =~= all);
    for i in 0..lines.len()
        invariant
            all == text::texts(lines@),
            all == text::lines(output@),
            first_address(all) == first_address(all.skip(i as int)),
    {
        assert(all.skip(i as int)[0] == lines@[i as int]@);
        let found = read_line_address(lines[i].as_str());
        if found.is_some() {
            return found;
        }
        assert(all.skip(i as int).skip(1) =~= all.skip(i + 1));
    }
    assert(all.skip(lines@.len() as int).len() == 0);
    None
}

/// The device that `ip -4 route show default` names: the word behind `dev`.
pub open spec fn route_device(route: Seq<char>) -> Option<Seq<char>> {
    text::word_after(text::words(route), "dev"@)
}

/// Reads the device of the default route.
pub fn read_device(route: &str) -> (r: Option<String>)
    ensures
        text::optional(r) == route_device(route@),
{
    let words = text::split_words(route);
    match text::find_word_after(&words, "dev") {
        Some(device) => Some(device.to_owned()),
        None => None,
    }
}

// ── The endpoint ─────────────────────────────────────────────────────────────

/// How the endpoint is settled: the one given, or one to be detected.
pub open spec fn resolve_control_plane_endpoint_plan(
    host: Host,
    explicit: Option<Seq<char>>,
    options: InitOptions<Seq<char>>,
) -> Seq<StepView> {
    match explicit {
        Some(endpoint) => cluster::set_up_plan(host, endpoint, options),
        None => detect_default_ip_plan(options),
    }
}

/// Uses the given control-plane endpoint; otherwise detects the default address
/// and the name of this host and asks for confirmation.
pub fn resolve_control_plane_endpoint(
    host: &Host,
    explicit: Option<String>,
    options: InitOptions,
) -> (r: Plan)
    ensures
        r@ =~~= resolve_control_plane_endpoint_plan(*host, text::optional(explicit), options@),
{
    match explicit {
        Some(endpoint) => cluster::set_up(host, endpoint, options),
        None => detect_default_ip(options),
    }
}

/// How the default address is detected: the default route is asked for first.
pub open spec fn detect_default_ip_plan(options: InitOptions<Seq<char>>) -> Seq<StepView> {
    seq![
        plan::capture(
            cmd::as_user("ip"@, seq!["-4"@, "route"@, "show"@, "default"@]),
            Topic::DefaultRoute(options),
        ),
    ]
}

/// Detects the default non-loopback IPv4 address of this host: the address on
/// the interface that owns the default route, the most likely candidate for a
/// control-plane endpoint.
pub fn detect_default_ip(options: InitOptions) -> (r: Plan)
    ensures
        r@ =~~= detect_default_ip_plan(options@),
{
    Plan::new().capture(
        Command::as_user("ip").arg("-4").arg("route").arg("show").arg("default"),
        Topic::DefaultRoute(options),
    )
}

/// What follows from the default route.
pub open spec fn route_shown_plan(
    program: Seq<char>,
    options: InitOptions<Seq<char>>,
    outcome: Outcome<Seq<char>>,
) -> Seq<StepView> {
    match cmd::result_of(program, outcome) {
        Err(error) => seq![StepView::Fail(error)],
        Ok(route) => match route_device(route) {
            None => seq![StepView::Fail(Error::NoDefaultRoute)],
            Some(device) => seq![
                plan::capture(
                    cmd::as_user(
                        "ip"@,
                        seq!["-4"@, "-o"@, "addr"@, "show"@, "dev"@, device],
                    ),
                    Topic::DeviceAddress { device, options },
                ),
            ],
        },
    }
}

/// Asks for the addresses of the device of the default route.
pub fn route_shown(program: &str, options: InitOptions, outcome: Outcome) -> (r: Plan)
    ensures
        r@ =~~= route_shown_plan(program@, options@, outcome@),
{
    match cmd::run(program, outcome) {
        Err(error) => Plan::new().fail(error),
        Ok(route) => match read_device(route.as_str()) {
            None => Plan::new().fail(Error::NoDefaultRoute),
            Some(device) => Plan::new().capture(
                Command::as_user("ip").arg("-4").arg("-o").arg("addr").arg("show").arg("dev").arg(
                    device.as_str(),
                ),
                Topic::DeviceAddress { device, options },
            ),
        },
    }
}

/// What follows from the addresses of a device.
pub open spec fn addresses_shown_plan(
    program: Seq<char>,
    device: Seq<char>,
    options: InitOptions<Seq<char>>,
    outcome: Outcome<Seq<char>>,
) -> Seq<StepView> {
    match cmd::result_of(program, outcome) {
        Err(error) => seq![StepView::Fail(error)],
        Ok(output) => match first_address(text::lines(output)) {
            None => seq![StepView::Fail(Error::NoAddress(device))],
            Some(address) => seq![
                plan::capture(
                    cmd::as_user("hostname"@, seq!["-f"@]),
                    Topic::QualifiedName { address, options },
                ),
            ],
        },
    }
}

/// Takes the first usable address of the device and asks for the host name.
pub fn addresses_shown(
    program: &str,
    device: String,
    options: InitOptions,
    outcome: Outcome,
) -> (r: Plan)
    ensures
        r@ =~~= addresses_shown_plan(program@, device@, options@, outcome@),
{
    match cmd::run(program, outcome) {
        Err(error) => Plan::new().fail(error),
        Ok(output) => match read_address(output.as_str()) {
            None => Plan::new().fail(Error::NoAddress(device)),
            Some(address) => detect_hostname(address, options),
        },
    }
}

/// Detects the host name: the fully qualified one is asked for first.
pub fn detect_hostname(address: String, options: InitOptions) -> (r: Plan)
    ensures
        r@ =~~= seq![
            plan::capture(
                cmd::as_user("hostname"@, seq!["-f"@]),
                Topic::QualifiedName { address: address@, options: options@ },
            ),
        ],
{
    Plan::new().capture(
        Command::as_user("hostname").arg("-f"),
        Topic::QualifiedName { address, options },
    )
}

/// What follows from the fully qualified host name.
pub open spec fn qualified_name_plan(
    address: Seq<char>,
    options: InitOptions<Seq<char>>,
    name: Seq<char>,
) -> Seq<StepView> {
    if name.len() > 0 {
        confirmation_plan(address, options, name)
    } else {
        seq![
            plan::capture(
                cmd::as_user("hostname"@, seq![]),
                Topic::ShortName { address, options },
            ),
        ]
    }
}

/// Asks for confirmation under the fully qualified host name, or falls back to
/// the short one.
pub fn qualified_name(address: String, options: InitOptions, name: &str) -> (r: Plan)
    ensures
        r@ =~~= qualified_name_plan(address@, options@, name@),
{
    if !name.is_empty() {
        confirmation(address, options, name)
    } else {
        Plan::new().capture(
            Command::as_user("hostname"),
            Topic::ShortName { address, options },
        )
    }
}

/// The question whether a detected address is the endpoint.
pub open spec fn confirmation_plan(
    address: Seq<char>,
    options: InitOptions<Seq<char>>,
    name: Seq<char>,
) -> Seq<StepView> {
    let detected = if name.len() == 0 {
        address
    } else {
        name + " ("@ + address + ")"@
    };
    seq![
        StepView::Prompt {
            text: "Detected control-plane endpoint: "@ + detected
                + "\nUse this as the control-plane endpoint? [Y/n/custom value]: "@,
            topic: Topic::Endpoint { address, options },
        },
    ]
}

/// Asks the user whether the detected address is the endpoint.
pub fn confirmation(address: String, options: InitOptions, name: &str) -> (r: Plan)
    ensures
        r@ =~~= confirmation_plan(address@, options@, name@),
{
    let detected = if name.is_empty() {
        address.clone()
    } else {
        name.to_owned().concat(" (").concat(address.as_str()).concat(")")
    };
    let text = "Detected control-plane endpoint: ".to_owned().concat(detected.as_str()).concat(
        "\nUse this as the control-plane endpoint? [Y/n/custom value]: ",
    );
    Plan::new().push(Step::Prompt { text, topic: Topic::Endpoint { address, options } })
}

/// Whether a reply accepts: one of the forms of `yes`.
pub open spec fn is_yes(reply: Seq<char>) -> bool {
    reply == "y"@ || reply == "Y"@ || reply == "yes"@ || reply == "Yes"@
}

/// Whether a reply declines: one of the forms of `no`.
pub open spec fn is_no(reply: Seq<char>) -> bool {
    reply == "n"@ || reply == "N"@ || reply == "no"@ || reply == "No"@
}

/// Decides whether a reply accepts.
pub fn yes(reply: &str) -> (r: bool)
    ensures
        r == is_yes(reply@),
{
    text::same(reply, "y") || text::same(reply, "Y") || text::same(reply, "yes") || text::same(
        reply,
        "Yes",
    )
}

/// Decides whether a reply declines.
pub fn no(reply: &str) -> (r: bool)
    ensures
        r == is_no(reply@),
{
    text::same(reply, "n") || text::same(reply, "N") || text::same(reply, "no") || text::same(
        reply,
        "No",
    )
}

/// The endpoint that a reply settles on: the detected address if it is
/// accepted, none if it is declined, and otherwise the reply itself.
pub open spec fn chosen_endpoint(address: Seq<char>, reply: Seq<char>) -> Option<Seq<char>> {
    let answer = text::trimmed(reply);
    if answer.len() == 0 || is_yes(answer) {
        Some(address)
    } else if is_no(answer) {
        None
    } else {
        Some(answer)
    }
}

/// What follows from the reply of the user.
pub open spec fn endpoint_replied_plan(
    host: Host,
    address: Seq<char>,
    options: InitOptions<Seq<char>>,
    outcome: Outcome<Seq<char>>,
) -> Seq<StepView> {
    match outcome {
        Outcome::Success(reply) => match chosen_endpoint(address, reply) {
            Some(endpoint) => cluster::set_up_plan(host, endpoint, options),
            None => seq![StepView::Fail(Error::EndpointDeclined)],
        },
        Outcome::NotStarted(cause) => seq![StepView::Fail(Error::NoReply(cause))],
        Outcome::Failure(cause) => seq![StepView::Fail(Error::NoReply(cause))],
    }
}

/// Goes on with the endpoint that the user settled on.
pub fn endpoint_replied(
    host: &Host,
    address: String,
    options: InitOptions,
    outcome: Outcome,
) -> (r: Plan)
    ensures
        r@ =~~= endpoint_replied_plan(*host, address@, options@, outcome@),
{
    match outcome {
        Outcome::Success(reply) => {
            let answer = text::trim(reply.as_str());
            if answer.as_str().is_empty() || yes(answer.as_str()) {
                cluster::set_up(host, address, options)
            } else if no(answer.as_str()) {
                Plan::new().fail(Error::EndpointDeclined)
            } else {
                cluster::set_up(host, answer, options)
            }
        },
        Outcome::NotStarted(cause) => Plan::new().fail(Error::NoReply(cause)),
        Outcome::Failure(cause) => Plan::new().fail(Error::NoReply(cause)),
    }
}

} // verus!
