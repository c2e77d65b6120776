//! Account records and the configuration grammar: one `key value`
//! line per setting, a blank line between accounts. A malformed
//! configuration is a typed fatal error, never a runtime surprise.
//!
//! The account name must look like an email address; the shape is
//! checked by a verified matcher for the grammar
//! `local@domain`, where the local part is letters, digits, `_` and
//! `+` with inner dots, and the domain is dot- or dash-separated
//! labels ending in a dot and at least two letters.

use vstd::prelude::*;

use crate::lines::{all_digits, digits_val, find_byte, parse_u32, scan_byte, split_lines,
    split_lines_vec, copy_range, push_all};

verus! {

/// The `@` that separates the local part from the domain.
pub const AT: u8 = 64;

/// A byte the local part may start and end with: `a`-`z`, `0`-`9`,
/// `_`, `+`.
pub open spec fn is_local_char(b: u8) -> bool {
    (97 <= b <= 122) || (48 <= b <= 57) || b == 95 || b == 43
}

/// A byte the local part may hold inside: the above and `.`.
pub open spec fn is_local_mid(b: u8) -> bool {
    is_local_char(b) || b == 46
}

/// A well-formed local part: nonempty, made of local bytes, neither
/// starting nor ending with a dot.
pub open spec fn local_ok(s: Seq<u8>) -> bool {
    &&& s.len() >= 1
    &&& is_local_char(s[0])
    &&& is_local_char(s[s.len() - 1])
    &&& forall|i: int| 0 <= i < s.len() ==> is_local_mid(#[trigger] s[i])
}

/// A byte a domain label is made of: `a`-`z`, `0`-`9`.
pub open spec fn is_label_char(b: u8) -> bool {
    (97 <= b <= 122) || (48 <= b <= 57)
}

/// A label separator: `-` or `.`.
pub open spec fn is_sep(b: u8) -> bool {
    b == 45 || b == 46
}

/// A lowercase letter.
pub open spec fn is_alpha(b: u8) -> bool {
    97 <= b <= 122
}

/// `t[0..k]` is a well-formed run of labels: it starts and ends with
/// a label byte, holds only label bytes and separators, and never two
/// separators in a row.
pub open spec fn label_run_ok(t: Seq<u8>, k: int) -> bool {
    &&& 1 <= k <= t.len()
    &&& is_label_char(t[0])
    &&& is_label_char(t[k - 1])
    &&& forall|i: int| 0 <= i < k ==> is_label_char(#[trigger] t[i]) || is_sep(t[i])
    &&& forall|i: int| 0 <= i < k - 1 ==> !(is_sep(#[trigger] t[i]) && is_sep(t[i + 1]))
}

/// The domain matches at `k`: a run of labels, then a dot, then at
/// least two letters; anything may follow.
pub open spec fn domain_match_at(t: Seq<u8>, k: int) -> bool {
    &&& label_run_ok(t, k)
    &&& k + 3 <= t.len()
    &&& t[k] == 46
    &&& is_alpha(t[k + 1])
    &&& is_alpha(t[k + 2])
}

/// The domain part is well-formed somewhere.
pub open spec fn domain_ok(t: Seq<u8>) -> bool {
    exists|k: int| domain_match_at(t, k)
}

/// The whole name looks like an email address: a well-formed local
/// part, an `@`, and a well-formed domain.
pub open spec fn email_ok(s: Seq<u8>) -> bool {
    exists|a: int|
        0 <= a < s.len() && s[a] == AT && local_ok(s.take(a)) && domain_ok(s.skip(a + 1))
}

fn is_local_char_at(b: u8) -> (r: bool)
    ensures
        r == is_local_char(b),
{
    (97 <= b && b <= 122) || (48 <= b && b <= 57) || b == 95 || b == 43
}

fn is_label_char_at(b: u8) -> (r: bool)
    ensures
        r == is_label_char(b),
{
    (97 <= b && b <= 122) || (48 <= b && b <= 57)
}

fn is_alpha_at(b: u8) -> (r: bool)
    ensures
        r == is_alpha(b),
{
    97 <= b && b <= 122
}

/// Check the domain part against the grammar.
fn domain_shape_ok(t: &[u8]) -> (r: bool)
    ensures
        r == domain_ok(t@),
{
    if t.len() == 0 || !is_label_char_at(t[0]) {
        proof {
            assert forall|k: int| !domain_match_at(t@, k) by {
                if 1 <= k <= t@.len() {
                    assert(!is_label_char(t@[0]) || t@.len() == 0);
                }
            }
        }
        return false;
    }
    let n = t.len();
    let mut k: usize = 1;
    while k < n
        invariant
            1 <= k <= n,
            n == t@.len(),
            is_label_char(t@[0]),
            forall|i: int| 0 <= i < k ==> is_label_char(#[trigger] t@[i]) || is_sep(t@[i]),
            forall|i: int| 0 <= i < k - 1 ==> !(is_sep(#[trigger] t@[i]) && is_sep(t@[i + 1])),
            forall|j: int| 0 <= j < k ==> !domain_match_at(t@, j),
        decreases n - k,
    {
        let b = t[k];
        if b == 46 {
            // a dot: either the final dot of a match, or a separator
            if is_label_char_at(t[k - 1]) && n - k > 2 && is_alpha_at(t[k + 1]) && is_alpha_at(
                t[k + 2],
            ) {
                proof {
                    assert(label_run_ok(t@, k as int));
                    assert(domain_match_at(t@, k as int));
                }
                return true;
            }
            if !is_label_char_at(t[k - 1]) {
                // two separators in a row: nothing longer can match
                proof {
                    assert(is_sep(t@[k - 1]));
                    assert forall|j: int| !domain_match_at(t@, j) by {
                        if j < k {
                        } else if j >= k {
                            if label_run_ok(t@, j) && j >= k + 1 {
                                assert(is_sep(t@[k - 1]) && is_sep(t@[k as int]));
                            }
                        }
                    }
                }
                return false;
            }
            proof {
                assert(!domain_match_at(t@, k as int));
            }
        } else if b == 45 {
            if !is_label_char_at(t[k - 1]) {
                proof {
                    assert(is_sep(t@[k - 1]));
                    assert forall|j: int| !domain_match_at(t@, j) by {
                        if j >= k + 1 {
                            if label_run_ok(t@, j) {
                                assert(is_sep(t@[k - 1]) && is_sep(t@[k as int]));
                            }
                        } else if j == k {
                            assert(t@[k as int] != 46);
                        }
                    }
                }
                return false;
            }
            proof {
                assert(!domain_match_at(t@, k as int));
            }
        } else if is_label_char_at(b) {
            proof {
                assert(!domain_match_at(t@, k as int));
            }
        } else {
            // a byte outside the grammar: nothing can match
            proof {
                assert forall|j: int| !domain_match_at(t@, j) by {
                    if j == k {
                        assert(t@[k as int] != 46);
                    } else if j >= k + 1 {
                        if label_run_ok(t@, j) {
                            assert(is_label_char(t@[k as int]) || is_sep(t@[k as int]));
                        }
                    }
                }
            }
            return false;
        }
        k = k + 1;
    }
    proof {
        assert forall|j: int| !domain_match_at(t@, j) by {
            if j >= k {
                assert(j + 3 > t@.len());
            }
        }
    }
    false
}

/// Whether a name has the shape of an email address, per the grammar
/// in the module documentation.
pub fn email_shape_ok(s: &[u8]) -> (r: bool)
    ensures
        r == email_ok(s@),
{
    proof {
        assert(s@.skip(0) =~= s@);
    }
    let a = scan_byte(s, 0, AT);
    if a == s.len() {
        // no `@` at all
        proof {
            assert forall|x: int| 0 <= x < s@.len() implies s@[x] != AT by {}
        }
        return false;
    }
    if a == 0 {
        // the name starts with `@`: the local part is empty
        proof {
            lemma_at_starts(s@);
        }
        return false;
    }
    // the local part can hold no `@`, so only the first `@` can split
    // the name; check the prefix before it
    let mut i: usize = 0;
    while i < a
        invariant
            0 <= i <= a < s@.len(),
            a >= 1,
            s@[a as int] == AT,
            forall|j: int| 0 <= j < a ==> s@[j] != AT,
            i > 0 ==> is_local_char(s@[0]),
            forall|j: int| 0 <= j < i ==> is_local_mid(#[trigger] s@[j]),
        decreases a - i,
    {
        let b = s[i];
        if i == 0 && !is_local_char_at(b) {
            // a local part may not start with a dot
            proof {
                lemma_only_first_at(s@, a as int, i as int);
            }
            return false;
        }
        if !(is_local_char_at(b) || b == 46) {
            // a byte outside the local alphabet: no later `@` can
            // help, since every prefix through it would hold it
            proof {
                lemma_only_first_at(s@, a as int, i as int);
            }
            return false;
        }
        i = i + 1;
    }
    if !is_local_char_at(s[a - 1]) {
        // a local part may not end with a dot
        proof {
            lemma_no_split_without_tail(s@, a as int);
        }
        return false;
    }
    proof {
        assert(s@.take(a as int)[0] == s@[0]);
        assert(s@.take(a as int)[a - 1] == s@[a - 1]);
        assert(local_ok(s@.take(a as int)));
    }
    let t = copy_range(s, a + 1, s.len());
    proof {
        assert(t@ =~= s@.skip(a + 1));
    }
    let dom = domain_shape_ok(t.as_slice());
    proof {
        if dom {
            assert(email_ok(s@));
        } else {
            lemma_only_candidate(s@, a as int);
        }
    }
    dom
}

proof fn lemma_at_starts(s: Seq<u8>)
    requires
        s.len() > 0,
        s[0] == AT,
    ensures
        !email_ok(s),
{
    assert forall|x: int|
        !(0 <= x < s.len() && s[x] == AT && local_ok(s.take(x)) && domain_ok(
            s.skip(x + 1),
        )) by {
        if 0 < x < s.len() && local_ok(s.take(x)) {
            assert(is_local_mid(s.take(x)[0]));
        }
    }
}

proof fn lemma_only_first_at(s: Seq<u8>, a: int, i: int)
    requires
        0 <= i <= a < s.len(),
        s[a] == AT,
        forall|j: int| 0 <= j < a ==> s[j] != AT,
        i < a,
        !is_local_char(s[0]) || !is_local_mid(s[i]),
    ensures
        !email_ok(s),
{
    assert forall|x: int|
        !(0 <= x < s.len() && s[x] == AT && local_ok(s.take(x)) && domain_ok(
            s.skip(x + 1),
        )) by {
        if 0 <= x < s.len() && s[x] == AT {
            assert(x >= a);
            if local_ok(s.take(x)) {
                assert(is_local_char(s.take(x)[0]));
                assert(is_local_mid(s.take(x)[i]));
            }
        }
    }
}

proof fn lemma_no_split_without_tail(s: Seq<u8>, a: int)
    requires
        1 <= a < s.len(),
        s[a] == AT,
        forall|j: int| 0 <= j < a ==> s[j] != AT,
        !is_local_char(s[a - 1]),
    ensures
        !email_ok(s),
{
    assert forall|x: int|
        !(0 <= x < s.len() && s[x] == AT && local_ok(s.take(x)) && domain_ok(
            s.skip(x + 1),
        )) by {
        if 0 <= x < s.len() && s[x] == AT {
            assert(x >= a);
            if local_ok(s.take(x)) {
                if x == a {
                    assert(is_local_char(s.take(x)[x - 1]));
                } else {
                    assert(is_local_mid(s.take(x)[a]));
                }
            }
        }
    }
}

/// The transport-security mode of an account.
#[derive(Debug, Clone, Copy, PartialEq, Eq, Structural)]
pub enum Tls {
    /// Connect in plaintext, upgrade with a protocol command.
    StartTls,
    /// Encrypted from the first byte.
    Tls,
    /// Plaintext throughout; legal only toward the loopback address.
    Plain,
}

/// Which protocol a session speaks.
#[derive(Debug, Clone, Copy, PartialEq, Eq, Structural)]
pub enum Protocol {
    Pop,
    Smtp,
}

/// One configured account, immutable for the duration of a session.
#[derive(Debug, PartialEq, Eq)]
pub struct Account {
    pub host: Vec<u8>,
    pub port: u32,
    pub user: Vec<u8>,
    pub tls: Tls,
    pub maildir: Vec<u8>,
    pub protocol: Protocol,
}

/// The mathematical shadow of an [`Account`].
#[verifier::ext_equal]
pub struct AccountView {
    pub host: Seq<u8>,
    pub port: u32,
    pub user: Seq<u8>,
    pub tls: Tls,
    pub maildir: Seq<u8>,
    pub protocol: Protocol,
}

impl View for Account {
    type V = AccountView;

    open spec fn view(&self) -> AccountView {
        AccountView {
            host: self.host@,
            port: self.port,
            user: self.user@,
            tls: self.tls,
            maildir: self.maildir@,
            protocol: self.protocol,
        }
    }
}

impl DeepView for Account {
    type V = AccountView;

    open spec fn deep_view(&self) -> AccountView {
        self.view()
    }
}

/// Why a configuration was rejected. Any of these is fatal at
/// startup.
#[derive(Debug, PartialEq, Eq)]
pub enum ConfigError {
    /// A nonempty line without a space: no `key value` shape.
    LineShape { line: Vec<u8> },
    /// A key that is not `host`, `user`, `port`, `tls` or `protocol`.
    UnknownKey { key: Vec<u8> },
    /// A `port` value that is not a decimal 32-bit number.
    BadPort { value: Vec<u8> },
    /// A `tls` value that is not `tls`, `starttls` or `none`.
    UnknownTls { value: Vec<u8> },
    /// A `protocol` value that is not `pop` or `smtp`.
    UnknownProtocol { value: Vec<u8> },
    /// A user name without the shape of an email address.
    InvalidEmail { user: Vec<u8> },
    /// `tls none` toward a host other than the loopback address.
    PlaintextNotLoopback { host: Vec<u8> },
}

/// The mathematical shadow of a [`ConfigError`].
#[verifier::ext_equal]
pub enum ConfigErrorView {
    LineShape { line: Seq<u8> },
    UnknownKey { key: Seq<u8> },
    BadPort { value: Seq<u8> },
    UnknownTls { value: Seq<u8> },
    UnknownProtocol { value: Seq<u8> },
    InvalidEmail { user: Seq<u8> },
    PlaintextNotLoopback { host: Seq<u8> },
}

impl View for ConfigError {
    type V = ConfigErrorView;

    open spec fn view(&self) -> ConfigErrorView {
        match self {
            ConfigError::LineShape { line } => ConfigErrorView::LineShape { line: line@ },
            ConfigError::UnknownKey { key } => ConfigErrorView::UnknownKey { key: key@ },
            ConfigError::BadPort { value } => ConfigErrorView::BadPort { value: value@ },
            ConfigError::UnknownTls { value } => ConfigErrorView::UnknownTls { value: value@ },
            ConfigError::UnknownProtocol { value } => ConfigErrorView::UnknownProtocol {
                value: value@,
            },
            ConfigError::InvalidEmail { user } => ConfigErrorView::InvalidEmail { user: user@ },
            ConfigError::PlaintextNotLoopback { host } => ConfigErrorView::PlaintextNotLoopback {
                host: host@,
            },
        }
    }
}

/// The account every block starts from: POP3 over TLS on port 995.
pub open spec fn default_account_view() -> AccountView {
    AccountView {
        host: seq![],
        port: 995,
        user: seq![],
        tls: Tls::Tls,
        maildir: seq![],
        protocol: Protocol::Pop,
    }
}

/// A fresh account record with the defaults.
pub fn default_account() -> (a: Account)
    ensures
        a@ == default_account_view(),
{
    let a = Account {
        host: Vec::new(),
        user: Vec::new(),
        port: 995,
        tls: Tls::Tls,
        protocol: Protocol::Pop,
        maildir: Vec::new(),
    };
    proof {
        assert(a@ =~~= default_account_view());
    }
    a
}

/// The loopback address, `127.0.0.1`.
pub open spec fn loopback() -> Seq<u8> {
    seq![49u8, 50u8, 55u8, 46u8, 48u8, 46u8, 48u8, 46u8, 49u8]
}

/// The mailbox path of a user: `/home/user/mail/<user>/INBOX`.
pub open spec fn inbox_path(user: Seq<u8>) -> Seq<u8> {
    seq![
        47u8, 104u8, 111u8, 109u8, 101u8, 47u8, 117u8, 115u8, 101u8, 114u8, 47u8, 109u8, 97u8,
        105u8, 108u8, 47u8,
    ] + user + seq![47u8, 73u8, 78u8, 66u8, 79u8, 88u8]
}

/// Build the mailbox path of a user.
pub fn inbox_path_of(user: &[u8]) -> (r: Vec<u8>)
    ensures
        r@ == inbox_path(user@),
{
    let mut r: Vec<u8> = Vec::new();
    r.push(47);
    r.push(104);
    r.push(111);
    r.push(109);
    r.push(101);
    r.push(47);
    r.push(117);
    r.push(115);
    r.push(101);
    r.push(114);
    r.push(47);
    r.push(109);
    r.push(97);
    r.push(105);
    r.push(108);
    r.push(47);
    push_all(&mut r, user);
    r.push(47);
    r.push(73);
    r.push(78);
    r.push(66);
    r.push(79);
    r.push(88);
    proof {
        assert(r@ =~= inbox_path(user@));
    }
    r
}

/// Closing an account block: the user name must look like an email
/// address, plaintext is only legal toward loopback, and the mailbox
/// path is derived from the user name.
pub open spec fn finalize_account(a: AccountView) -> Result<AccountView, ConfigErrorView> {
    if !email_ok(a.user) {
        Err(ConfigErrorView::InvalidEmail { user: a.user })
    } else if a.tls is Plain && a.host != loopback() {
        Err(ConfigErrorView::PlaintextNotLoopback { host: a.host })
    } else {
        Ok(AccountView { maildir: inbox_path(a.user), ..a })
    }
}

/// Validate an account block and resolve its mailbox path, as
/// [`finalize_account`] describes. On rejection the record is left
/// as it stood.
pub fn check_account(account: &mut Account) -> (r: Result<(), ConfigError>)
    ensures
        match finalize_account(old(account)@) {
            Ok(av) => (r is Ok) && final(account)@ == av,
            Err(ev) => (r is Err) && r->Err_0@ == ev && final(account)@ == old(account)@,
        },
{
    if !email_shape_ok(account.user.as_slice()) {
        let user = account.user.clone();
        return Err(ConfigError::InvalidEmail { user });
    }
    let plain = matches!(account.tls, Tls::Plain);
    if plain && !is_loopback(account.host.as_slice()) {
        let host = account.host.clone();
        return Err(ConfigError::PlaintextNotLoopback { host });
    }
    account.maildir = inbox_path_of(account.user.as_slice());
    proof {
        assert(final(account)@ =~~= finalize_account(old(account)@)->Ok_0);
    }
    Ok(())
}

fn is_loopback(h: &[u8]) -> (r: bool)
    ensures
        r == (h@ == loopback()),
{
    let r = h.len() == 9 && h[0] == 49 && h[1] == 50 && h[2] == 55 && h[3] == 46 && h[4] == 48
        && h[5] == 46 && h[6] == 48 && h[7] == 46 && h[8] == 49;
    proof {
        if r {
            assert(h@ =~= loopback());
        }
    }
    r
}

proof fn lemma_only_candidate(s: Seq<u8>, a: int)
    requires
        0 <= a < s.len(),
        s[a] == AT,
        forall|j: int| 0 <= j < a ==> s[j] != AT,
        !domain_ok(s.skip(a + 1)),
    ensures
        !email_ok(s),
{
    assert forall|x: int|
        !(0 <= x < s.len() && s[x] == AT && local_ok(s.take(x)) && domain_ok(
            s.skip(x + 1),
        )) by {
        if 0 <= x < s.len() && s[x] == AT && x != a {
            assert(x > a);
            if local_ok(s.take(x)) {
                assert(is_local_mid(s.take(x)[a]));
            }
        }
    }
}


/// The configuration keys.
pub open spec fn kw_host() -> Seq<u8> {
    seq![104u8, 111u8, 115u8, 116u8]
}

pub open spec fn kw_user() -> Seq<u8> {
    seq![117u8, 115u8, 101u8, 114u8]
}

pub open spec fn kw_port() -> Seq<u8> {
    seq![112u8, 111u8, 114u8, 116u8]
}

pub open spec fn kw_tls() -> Seq<u8> {
    seq![116u8, 108u8, 115u8]
}

pub open spec fn kw_protocol() -> Seq<u8> {
    seq![112u8, 114u8, 111u8, 116u8, 111u8, 99u8, 111u8, 108u8]
}

/// The `tls` values.
pub open spec fn val_tls() -> Seq<u8> {
    seq![116u8, 108u8, 115u8]
}

pub open spec fn val_starttls() -> Seq<u8> {
    seq![115u8, 116u8, 97u8, 114u8, 116u8, 116u8, 108u8, 115u8]
}

pub open spec fn val_none() -> Seq<u8> {
    seq![110u8, 111u8, 110u8, 101u8]
}

/// The `protocol` values.
pub open spec fn val_pop() -> Seq<u8> {
    seq![112u8, 111u8, 112u8]
}

pub open spec fn val_smtp() -> Seq<u8> {
    seq![115u8, 109u8, 116u8, 112u8]
}

fn is_kw_host(k: &[u8]) -> (r: bool)
    ensures
        r == (k@ == kw_host()),
{
    let r = k.len() == 4 && k[0] == 104 && k[1] == 111 && k[2] == 115 && k[3] == 116;
    proof {
        if r {
            assert(k@ =~= kw_host());
        }
    }
    r
}

fn is_kw_user(k: &[u8]) -> (r: bool)
    ensures
        r == (k@ == kw_user()),
{
    let r = k.len() == 4 && k[0] == 117 && k[1] == 115 && k[2] == 101 && k[3] == 114;
    proof {
        if r {
            assert(k@ =~= kw_user());
        }
    }
    r
}

fn is_kw_port(k: &[u8]) -> (r: bool)
    ensures
        r == (k@ == kw_port()),
{
    let r = k.len() == 4 && k[0] == 112 && k[1] == 111 && k[2] == 114 && k[3] == 116;
    proof {
        if r {
            assert(k@ =~= kw_port());
        }
    }
    r
}

fn is_kw_tls(k: &[u8]) -> (r: bool)
    ensures
        r == (k@ == kw_tls()),
{
    let r = k.len() == 3 && k[0] == 116 && k[1] == 108 && k[2] == 115;
    proof {
        if r {
            assert(k@ =~= kw_tls());
        }
    }
    r
}

fn is_kw_protocol(k: &[u8]) -> (r: bool)
    ensures
        r == (k@ == kw_protocol()),
{
    let r = k.len() == 8 && k[0] == 112 && k[1] == 114 && k[2] == 111 && k[3] == 116 && k[4] == 111
        && k[5] == 99 && k[6] == 111 && k[7] == 108;
    proof {
        if r {
            assert(k@ =~= kw_protocol());
        }
    }
    r
}

fn is_val_starttls(k: &[u8]) -> (r: bool)
    ensures
        r == (k@ == val_starttls()),
{
    let r = k.len() == 8 && k[0] == 115 && k[1] == 116 && k[2] == 97 && k[3] == 114 && k[4] == 116
        && k[5] == 116 && k[6] == 108 && k[7] == 115;
    proof {
        if r {
            assert(k@ =~= val_starttls());
        }
    }
    r
}

fn is_val_none(k: &[u8]) -> (r: bool)
    ensures
        r == (k@ == val_none()),
{
    let r = k.len() == 4 && k[0] == 110 && k[1] == 111 && k[2] == 110 && k[3] == 101;
    proof {
        if r {
            assert(k@ =~= val_none());
        }
    }
    r
}

fn is_val_pop(k: &[u8]) -> (r: bool)
    ensures
        r == (k@ == val_pop()),
{
    let r = k.len() == 3 && k[0] == 112 && k[1] == 111 && k[2] == 112;
    proof {
        if r {
            assert(k@ =~= val_pop());
        }
    }
    r
}

fn is_val_smtp(k: &[u8]) -> (r: bool)
    ensures
        r == (k@ == val_smtp()),
{
    let r = k.len() == 4 && k[0] == 115 && k[1] == 109 && k[2] == 116 && k[3] == 112;
    proof {
        if r {
            assert(k@ =~= val_smtp());
        }
    }
    r
}

/// One `key value` line applied to the account being gathered: the
/// key is the text before the first space, the value everything after
/// it.
pub open spec fn apply_line(a: AccountView, line: Seq<u8>) -> Result<
    AccountView,
    ConfigErrorView,
> {
    let sp = find_byte(line, 32);
    if !(0 <= sp && sp < line.len()) {
        Err(ConfigErrorView::LineShape { line })
    } else {
        let key = line.take(sp);
        let value = line.skip(sp + 1);
        if key == kw_host() {
            Ok(AccountView { host: value, ..a })
        } else if key == kw_user() {
            Ok(AccountView { user: value, ..a })
        } else if key == kw_port() {
            if value.len() > 0 && all_digits(value) && digits_val(value) <= u32::MAX {
                Ok(AccountView { port: digits_val(value) as u32, ..a })
            } else {
                Err(ConfigErrorView::BadPort { value })
            }
        } else if key == kw_tls() {
            if value == val_tls() {
                Ok(AccountView { tls: Tls::Tls, ..a })
            } else if value == val_starttls() {
                Ok(AccountView { tls: Tls::StartTls, ..a })
            } else if value == val_none() {
                Ok(AccountView { tls: Tls::Plain, ..a })
            } else {
                Err(ConfigErrorView::UnknownTls { value })
            }
        } else if key == kw_protocol() {
            if value == val_pop() {
                Ok(AccountView { protocol: Protocol::Pop, ..a })
            } else if value == val_smtp() {
                Ok(AccountView { protocol: Protocol::Smtp, ..a })
            } else {
                Err(ConfigErrorView::UnknownProtocol { value })
            }
        } else {
            Err(ConfigErrorView::UnknownKey { key })
        }
    }
}

/// Apply one configuration line to the account being gathered, as
/// [`apply_line`] describes.
fn apply_line_exec(account: &mut Account, line: Vec<u8>) -> (r: Result<(), ConfigError>)
    ensures
        match apply_line(old(account)@, line@) {
            Ok(av) => (r is Ok) && final(account)@ == av,
            Err(ev) => (r is Err) && r->Err_0@ == ev,
        },
{
    proof {
        assert(line@.skip(0) =~= line@);
    }
    let sp = scan_byte(line.as_slice(), 0, 32);
    if sp == line.len() {
        return Err(ConfigError::LineShape { line });
    }
    let key = copy_range(line.as_slice(), 0, sp);
    let value = copy_range(line.as_slice(), sp + 1, line.len());
    proof {
        assert(key@ =~= line@.take(sp as int));
        assert(value@ =~= line@.skip(sp + 1));
    }
    if is_kw_host(key.as_slice()) {
        account.host = value;
        proof {
            assert(final(account)@ =~~= apply_line(old(account)@, line@)->Ok_0);
        }
        Ok(())
    } else if is_kw_user(key.as_slice()) {
        account.user = value;
        proof {
            assert(final(account)@ =~~= apply_line(old(account)@, line@)->Ok_0);
        }
        Ok(())
    } else if is_kw_port(key.as_slice()) {
        match parse_u32(value.as_slice()) {
            Some(p) => {
                account.port = p;
                proof {
                    assert(final(account)@ =~~= apply_line(old(account)@, line@)->Ok_0);
                }
                Ok(())
            },
            None => Err(ConfigError::BadPort { value }),
        }
    } else if is_kw_tls(key.as_slice()) {
        if is_kw_tls(value.as_slice()) {
            account.tls = Tls::Tls;
            proof {
                assert(final(account)@ =~~= apply_line(old(account)@, line@)->Ok_0);
            }
            Ok(())
        } else if is_val_starttls(value.as_slice()) {
            account.tls = Tls::StartTls;
            proof {
                assert(final(account)@ =~~= apply_line(old(account)@, line@)->Ok_0);
            }
            Ok(())
        } else if is_val_none(value.as_slice()) {
            account.tls = Tls::Plain;
            proof {
                assert(final(account)@ =~~= apply_line(old(account)@, line@)->Ok_0);
            }
            Ok(())
        } else {
            Err(ConfigError::UnknownTls { value })
        }
    } else if is_kw_protocol(key.as_slice()) {
        if is_val_pop(value.as_slice()) {
            account.protocol = Protocol::Pop;
            proof {
                assert(final(account)@ =~~= apply_line(old(account)@, line@)->Ok_0);
            }
            Ok(())
        } else if is_val_smtp(value.as_slice()) {
            account.protocol = Protocol::Smtp;
            proof {
                assert(final(account)@ =~~= apply_line(old(account)@, line@)->Ok_0);
            }
            Ok(())
        } else {
            Err(ConfigError::UnknownProtocol { value })
        }
    } else {
        Err(ConfigError::UnknownKey { key })
    }
}

/// The configuration fold: an empty line closes the account block
/// being gathered; any other line sets one of its fields; the block
/// in progress is closed once more at the end of the text.
pub open spec fn parse_lines(
    ls: Seq<Seq<u8>>,
    acc: AccountView,
    done: Seq<AccountView>,
) -> Result<Seq<AccountView>, ConfigErrorView>
    decreases ls.len(),
{
    if ls.len() == 0 {
        match finalize_account(acc) {
            Ok(a) => Ok(done.push(a)),
            Err(e) => Err(e),
        }
    } else if ls[0].len() == 0 {
        match finalize_account(acc) {
            Ok(a) => parse_lines(ls.drop_first(), default_account_view(), done.push(a)),
            Err(e) => Err(e),
        }
    } else {
        match apply_line(acc, ls[0]) {
            Ok(a2) => parse_lines(ls.drop_first(), a2, done),
            Err(e) => Err(e),
        }
    }
}

/// What a whole configuration text means: its lines folded over a
/// default account.
pub open spec fn spec_parse_config(s: Seq<u8>) -> Result<Seq<AccountView>, ConfigErrorView> {
    parse_lines(split_lines(s), default_account_view(), seq![])
}

/// Parse a configuration text into its account records, as
/// [`spec_parse_config`] describes. Every account comes back
/// validated, with its mailbox path resolved.
pub fn parse_config(contents: &[u8]) -> (r: Result<Vec<Account>, ConfigError>)
    ensures
        (r is Ok) <==> (spec_parse_config(contents@) is Ok),
        r is Ok ==> r->Ok_0.deep_view() == spec_parse_config(contents@)->Ok_0,
        r is Err ==> r->Err_0@ == spec_parse_config(contents@)->Err_0,
{
    let lines = split_lines_vec(contents);
    let ghost ldv = lines.deep_view();
    let mut out: Vec<Account> = Vec::new();
    let mut account = default_account();
    let mut idx: usize = 0;
    proof {
        assert(ldv.skip(0) =~~= ldv);
        assert(out.deep_view() =~~= Seq::<AccountView>::empty());
    }
    while idx < lines.len()
        invariant
            idx <= lines@.len(),
            ldv == lines.deep_view(),
            ldv.len() == lines@.len(),
            spec_parse_config(contents@) == parse_lines(
                ldv.skip(idx as int),
                account@,
                out.deep_view(),
            ),
        decreases lines@.len() - idx,
    {
        let line = lines[idx].clone();
        let ghost rest = ldv.skip(idx as int);
        proof {
            assert(rest[0] == ldv[idx as int]);
            assert(ldv[idx as int] == lines@[idx as int]@);
            assert(rest.drop_first() =~~= ldv.skip(idx + 1));
        }
        let ghost pre_acc = account@;
        let ghost pre_out = out.deep_view();
        if line.len() == 0 {
            match check_account(&mut account) {
                Ok(()) => {
                    out.push(account);
                    account = default_account();
                    proof {
                        let fin = finalize_account(pre_acc)->Ok_0;
                        assert(out.deep_view() =~~= pre_out.push(fin));
                        assert(parse_lines(rest, pre_acc, pre_out) == parse_lines(
                            rest.drop_first(),
                            default_account_view(),
                            pre_out.push(fin),
                        ));
                    }
                },
                Err(e) => {
                    return Err(e);
                },
            }
        } else {
            match apply_line_exec(&mut account, line) {
                Ok(()) => {
                    proof {
                        assert(parse_lines(rest, pre_acc, pre_out) == parse_lines(
                            rest.drop_first(),
                            account@,
                            pre_out,
                        ));
                    }
                },
                Err(e) => {
                    return Err(e);
                },
            }
        }
        idx = idx + 1;
    }
    proof {
        assert(ldv.skip(ldv.len() as int) =~~= Seq::<Seq<u8>>::empty());
    }
    match check_account(&mut account) {
        Ok(()) => {
            out.push(account);
            Ok(out)
        },
        Err(e) => Err(e),
    }
}

/// The opportunistic-upgrade command of each protocol: `stls` for
/// mail retrieval, `starttls` for mail submission.
pub open spec fn upgrade_command_spec(protocol: Protocol) -> Seq<u8> {
    match protocol {
        Protocol::Pop => seq![115u8, 116u8, 108u8, 115u8, 13u8, 10u8],
        Protocol::Smtp => seq![115u8, 116u8, 97u8, 114u8, 116u8, 116u8, 108u8, 115u8, 13u8, 10u8],
    }
}

/// Compose the security-upgrade command for a protocol.
pub fn upgrade_command(protocol: Protocol) -> (r: Vec<u8>)
    ensures
        r@ == upgrade_command_spec(protocol),
{
    let mut r: Vec<u8> = Vec::new();
    r.push(115);
    r.push(116);
    match protocol {
        Protocol::Pop => {
            r.push(108);
            r.push(115);
        },
        Protocol::Smtp => {
            r.push(97);
            r.push(114);
            r.push(116);
            r.push(116);
            r.push(108);
            r.push(115);
        },
    }
    r.push(13);
    r.push(10);
    proof {
        assert(r@ =~= upgrade_command_spec(protocol));
    }
    r
}

} // verus!

