use vstd::prelude::*;
use crate::git_command::string_texts;
use vstd::string::StringExecFns;

verus! {

/// What a credential record holds: each scalar field absent or a text,
/// and the multi-valued `wwwauth`.
pub struct CredentialsView {
    pub protocol: Option<Seq<char>>,
    pub host: Option<Seq<char>>,
    pub path: Option<Seq<char>>,
    pub username: Option<Seq<char>>,
    pub password: Option<Seq<char>>,
    pub password_expiry_utc: Option<Seq<char>>,
    pub oauth_refresh_token: Option<Seq<char>>,
    pub url: Option<Seq<char>>,
    pub wwwauth: Option<Seq<Seq<char>>>,
}

/// The record with every field absent.
pub open spec fn empty_record() -> CredentialsView {
    CredentialsView {
        protocol: None,
        host: None,
        path: None,
        username: None,
        password: None,
        password_expiry_utc: None,
        oauth_refresh_token: None,
        url: None,
        wwwauth: None,
    }
}

/// The line `key=value` followed by a newline, or nothing for an absent value.
pub open spec fn field_line(key: Seq<char>, value: Option<Seq<char>>) -> Seq<char> {
    match value {
        Some(v) => key + seq!['='] + v + seq!['\n'],
        None => Seq::empty(),
    }
}

/// The protocol text of a record: one line per present scalar field, in a fixed order.
pub open spec fn credentials_text(c: CredentialsView) -> Seq<char> {
    field_line("protocol"@, c.protocol) + field_line("host"@, c.host) + field_line("path"@, c.path)
        + field_line("username"@, c.username) + field_line("password"@, c.password)
        + field_line("password_expiry_utc"@, c.password_expiry_utc)
        + field_line("oauth_refresh_token"@, c.oauth_refresh_token)
        + field_line("url"@, c.url)
}

/// The lines of a text, split at each newline; the last line is what follows the last newline.
pub open spec fn lines_of(s: Seq<char>) -> Seq<Seq<char>>
    decreases s.len(),
{
    if s.len() == 0 {
        seq![Seq::empty()]
    } else {
        let before = lines_of(s.drop_last());
        if s.last() == '\n' {
            before.push(Seq::empty())
        } else {
            before.update(before.len() - 1, before.last().push(s.last()))
        }
    }
}

/// Where the first `=` of a line stands, or -1 where it has none.
pub open spec fn first_eq(line: Seq<char>) -> int
    decreases line.len(),
{
    if line.len() == 0 {
        -1
    } else if line[0] == '=' {
        0
    } else {
        let rest = first_eq(line.drop_first());
        if rest < 0 {
            -1
        } else {
            rest + 1
        }
    }
}

/// The record with the field named `key` set to `value`; an unknown key changes nothing.
pub open spec fn with_field(c: CredentialsView, key: Seq<char>, value: Seq<char>) -> CredentialsView {
    if key == "protocol"@ {
        CredentialsView { protocol: Some(value), ..c }
    } else if key == "host"@ {
        CredentialsView { host: Some(value), ..c }
    } else if key == "path"@ {
        CredentialsView { path: Some(value), ..c }
    } else if key == "username"@ {
        CredentialsView { username: Some(value), ..c }
    } else if key == "password"@ {
        CredentialsView { password: Some(value), ..c }
    } else if key == "password_expiry_utc"@ {
        CredentialsView { password_expiry_utc: Some(value), ..c }
    } else if key == "oauth_refresh_token"@ {
        CredentialsView { oauth_refresh_token: Some(value), ..c }
    } else if key == "url"@ {
        CredentialsView { url: Some(value), ..c }
    } else {
        c
    }
}

/// One line read into a record: split at its first `=` into key and value; a line
/// without `=` changes nothing.
pub open spec fn apply_line(c: CredentialsView, line: Seq<char>) -> CredentialsView {
    let i = first_eq(line);
    if i < 0 {
        c
    } else {
        with_field(c, line.take(i), line.skip(i + 1))
    }
}

/// The lines read in order into the record `c`, so that a later line wins.
pub open spec fn fold_lines(c: CredentialsView, lines: Seq<Seq<char>>) -> CredentialsView
    decreases lines.len(),
{
    if lines.len() == 0 {
        c
    } else {
        apply_line(fold_lines(c, lines.drop_last()), lines.last())
    }
}

/// The record that a protocol text describes.
pub open spec fn credentials_of_text(s: Seq<char>) -> CredentialsView {
    fold_lines(empty_record(), lines_of(s))
}

/// Whether a text holds no newline.
pub open spec fn single_line(s: Seq<char>) -> bool {
    forall|i: int| 0 <= i < s.len() ==> s[i] != '\n'
}

/// Whether the codec knows a key.
pub open spec fn is_known_key(key: Seq<char>) -> bool {
    key == "protocol"@ || key == "host"@ || key == "path"@ || key == "username"@ || key
        == "password"@ || key == "password_expiry_utc"@ || key == "oauth_refresh_token"@ || key
        == "url"@
}

/// The scalar fields of a record: the multi-valued field never stands in the text.
pub open spec fn scalar_fields(c: CredentialsView) -> CredentialsView {
    CredentialsView { wwwauth: None, ..c }
}

/// Where no `=` precedes position `i` and one stands at `i` (or `i` is the end),
/// the first `=` is at `i` (or there is none).
pub proof fn lemma_first_eq(line: Seq<char>, i: int)
    requires
        0 <= i <= line.len(),
        forall|j: int| 0 <= j < i ==> line[j] != '=',
        i < line.len() ==> line[i] == '=',
    ensures
        first_eq(line) == (if i < line.len() { i } else { -1 }),
    decreases i,
{
    if i > 0 {
        lemma_first_eq(line.drop_first(), i - 1);
    }
}

/// A text always has at least one line.
pub proof fn lemma_lines_nonempty(s: Seq<char>)
    ensures
        lines_of(s).len() >= 1,
    decreases s.len(),
{
    if s.len() > 0 {
        lemma_lines_nonempty(s.drop_last());
    }
}

/// A text without a newline is a single line.
pub proof fn lemma_lines_single(t: Seq<char>)
    requires
        single_line(t),
    ensures
        lines_of(t) == seq![t],
    decreases t.len(),
{
    if t.len() == 0 {
        assert(t =~= Seq::<char>::empty());
        assert(lines_of(t) =~= seq![t]);
    } else {
        lemma_lines_single(t.drop_last());
        assert(t[t.len() - 1] != '\n');
        assert(t.drop_last().push(t.last()) =~= t);
        assert(lines_of(t) =~= seq![t]);
    }
}

/// After a text whose last line is empty, the lines of what follows start afresh.
pub proof fn lemma_lines_concat(x: Seq<char>, b: Seq<char>)
    requires
        lines_of(x).last() == Seq::<char>::empty(),
    ensures
        lines_of(x + b) == lines_of(x).drop_last() + lines_of(b),
    decreases b.len(),
{
    lemma_lines_nonempty(x);
    if b.len() == 0 {
        assert(x + b =~= x);
        assert(lines_of(b) =~= seq![Seq::<char>::empty()]);
        assert(lines_of(x).drop_last() + lines_of(b) =~= lines_of(x));
    } else {
        let b0 = b.drop_last();
        lemma_lines_concat(x, b0);
        lemma_lines_nonempty(b0);
        assert((x + b).drop_last() =~= x + b0);
        assert((x + b).last() == b.last());
        let d = lines_of(x).drop_last();
        if b.last() == '\n' {
            assert(lines_of(x + b) =~= d + lines_of(b));
        } else {
            assert(lines_of(x + b) =~= d + lines_of(b));
        }
    }
}

/// Reading lines `a + b` is reading `a`, then `b`.
pub proof fn lemma_fold_concat(c: CredentialsView, a: Seq<Seq<char>>, b: Seq<Seq<char>>)
    ensures
        fold_lines(c, a + b) == fold_lines(fold_lines(c, a), b),
    decreases b.len(),
{
    if b.len() == 0 {
        assert(a + b =~= a);
    } else {
        lemma_fold_concat(c, a, b.drop_last());
        assert((a + b).drop_last() =~= a + b.drop_last());
    }
}

/// Reading one line into a record; an empty line changes nothing.
pub proof fn lemma_fold_one(c: CredentialsView, line: Seq<char>)
    ensures
        fold_lines(c, seq![line]) == apply_line(c, line),
        apply_line(c, Seq::empty()) == c,
{
    assert(seq![line].drop_last() =~= Seq::<Seq<char>>::empty());
    assert(fold_lines(c, Seq::<Seq<char>>::empty()) == c);
    lemma_first_eq(Seq::<char>::empty(), 0);
}

/// Appending one line and its newline to a text whose last line is empty reads that line.
pub proof fn lemma_push_line(s: Seq<char>, line: Seq<char>)
    requires
        lines_of(s).last() == Seq::<char>::empty(),
        single_line(line),
    ensures
        lines_of(s + line.push('\n')).last() == Seq::<char>::empty(),
        lines_of(s + line.push('\n')) == lines_of(s).drop_last() + seq![line, Seq::empty()],
        credentials_of_text(s + line.push('\n')) == apply_line(credentials_of_text(s), line),
{
    lemma_lines_nonempty(s);
    lemma_lines_single(line);
    assert(line.push('\n').drop_last() =~= line);
    assert(lines_of(line.push('\n')) =~= seq![line, Seq::empty()]);
    lemma_lines_concat(s, line.push('\n'));
    let d = lines_of(s).drop_last();
    assert(lines_of(s) =~= d + seq![Seq::<char>::empty()]);
    lemma_fold_concat(empty_record(), d, seq![Seq::<char>::empty()]);
    lemma_fold_concat(empty_record(), d, seq![line, Seq::empty()]);
    let before = fold_lines(empty_record(), d);
    lemma_fold_one(before, Seq::empty());
    lemma_fold_one(before, line);
    lemma_fold_one(apply_line(before, line), Seq::empty());
    assert(seq![line, Seq::<char>::empty()].drop_last() =~= seq![line]);
    assert(fold_lines(before, seq![line, Seq::empty()]) == apply_line(
        fold_lines(before, seq![line]),
        Seq::empty(),
    ));
}

/// Appending the line of a field to a text whose last line is empty sets that field.
pub proof fn lemma_push_field(s: Seq<char>, key: Seq<char>, value: Option<Seq<char>>)
    requires
        lines_of(s).last() == Seq::<char>::empty(),
        single_line(key),
        forall|i: int| 0 <= i < key.len() ==> key[i] != '=',
        value matches Some(v) ==> single_line(v),
    ensures
        lines_of(s + field_line(key, value)).last() == Seq::<char>::empty(),
        credentials_of_text(s + field_line(key, value)) == match value {
            Some(v) => with_field(credentials_of_text(s), key, v),
            None => credentials_of_text(s),
        },
{
    match value {
        Some(v) => {
            let line = key + seq!['='] + v;
            assert(s + field_line(key, value) =~= s + line.push('\n'));
            lemma_push_line(s, line);
            lemma_first_eq(line, key.len() as int);
            assert(line.take(key.len() as int) =~= key);
            assert(line.skip(key.len() as int + 1) =~= v);
        },
        None => {
            assert(s + field_line(key, value) =~= s);
        },
    }
}

/// The known keys are pairwise distinct.
pub proof fn lemma_keys_distinct()
    ensures
        "path"@ != "host"@,
        "username"@ != "protocol"@,
        "password"@ != "protocol"@,
        "password"@ != "username"@,
        "oauth_refresh_token"@ != "password_expiry_utc"@,
{
    reveal_strlit("protocol");
    reveal_strlit("host");
    reveal_strlit("path");
    reveal_strlit("username");
    reveal_strlit("password");
    reveal_strlit("password_expiry_utc");
    reveal_strlit("oauth_refresh_token");
    assert("path"@[0] != "host"@[0]);
    assert("username"@[0] != "protocol"@[0]);
    assert("password"@[1] != "protocol"@[1]);
    assert("password"@[0] != "username"@[0]);
    assert("oauth_refresh_token"@[0] != "password_expiry_utc"@[0]);
}

/// Round trip: reading the text of a record whose values hold no newline gives back
/// its scalar fields.
pub proof fn lemma_round_trip(c: CredentialsView)
    requires
        c.protocol matches Some(v) ==> single_line(v),
        c.host matches Some(v) ==> single_line(v),
        c.path matches Some(v) ==> single_line(v),
        c.username matches Some(v) ==> single_line(v),
        c.password matches Some(v) ==> single_line(v),
        c.password_expiry_utc matches Some(v) ==> single_line(v),
        c.oauth_refresh_token matches Some(v) ==> single_line(v),
        c.url matches Some(v) ==> single_line(v),
    ensures
        credentials_of_text(credentials_text(c)) == scalar_fields(c),
{
    reveal_strlit("protocol");
    reveal_strlit("host");
    reveal_strlit("path");
    reveal_strlit("username");
    reveal_strlit("password");
    reveal_strlit("password_expiry_utc");
    reveal_strlit("oauth_refresh_token");
    reveal_strlit("url");
    let t0 = Seq::<char>::empty();
    assert(lines_of(t0) =~= seq![Seq::<char>::empty()]);
    lemma_first_eq(Seq::<char>::empty(), 0);
    lemma_fold_one(empty_record(), Seq::empty());
    assert(credentials_of_text(t0) == empty_record());
    lemma_keys_distinct();
    let e = empty_record();
    let t1 = t0 + field_line("protocol"@, c.protocol);
    lemma_push_field(t0, "protocol"@, c.protocol);
    assert(credentials_of_text(t1) == CredentialsView { protocol: c.protocol, ..e });
    let t2 = t1 + field_line("host"@, c.host);
    lemma_push_field(t1, "host"@, c.host);
    assert(credentials_of_text(t2) == CredentialsView { protocol: c.protocol, host: c.host, ..e });
    let t3 = t2 + field_line("path"@, c.path);
    lemma_push_field(t2, "path"@, c.path);
    assert(credentials_of_text(t3) == CredentialsView {
        protocol: c.protocol,
        host: c.host,
        path: c.path,
        ..e
    });
    let t4 = t3 + field_line("username"@, c.username);
    lemma_push_field(t3, "username"@, c.username);
    assert(credentials_of_text(t4) == CredentialsView {
        protocol: c.protocol,
        host: c.host,
        path: c.path,
        username: c.username,
        ..e
    });
    let t5 = t4 + field_line("password"@, c.password);
    lemma_push_field(t4, "password"@, c.password);
    assert(credentials_of_text(t5) == CredentialsView {
        protocol: c.protocol,
        host: c.host,
        path: c.path,
        username: c.username,
        password: c.password,
        ..e
    });
    let t6 = t5 + field_line("password_expiry_utc"@, c.password_expiry_utc);
    lemma_push_field(t5, "password_expiry_utc"@, c.password_expiry_utc);
    assert(credentials_of_text(t6) == CredentialsView {
        protocol: c.protocol,
        host: c.host,
        path: c.path,
        username: c.username,
        password: c.password,
        password_expiry_utc: c.password_expiry_utc,
        ..e
    });
    let t7 = t6 + field_line("oauth_refresh_token"@, c.oauth_refresh_token);
    lemma_push_field(t6, "oauth_refresh_token"@, c.oauth_refresh_token);
    assert(credentials_of_text(t7) == CredentialsView {
        protocol: c.protocol,
        host: c.host,
        path: c.path,
        username: c.username,
        password: c.password,
        password_expiry_utc: c.password_expiry_utc,
        oauth_refresh_token: c.oauth_refresh_token,
        ..e
    });
    let t8 = t7 + field_line("url"@, c.url);
    lemma_push_field(t7, "url"@, c.url);
    assert(credentials_of_text(t8) == scalar_fields(c));
    assert(t1 =~= field_line("protocol"@, c.protocol));
    assert(t8 =~= credentials_text(c));
}

/// Unknown keys are skipped: a line whose key the codec does not know, or that holds
/// no `=`, changes nothing wherever it stands in the text.
pub proof fn lemma_unknown_line_skipped(a: Seq<char>, line: Seq<char>, b: Seq<char>)
    requires
        lines_of(a).last() == Seq::<char>::empty(),
        single_line(line),
        first_eq(line) >= 0 ==> !is_known_key(line.take(first_eq(line))),
    ensures
        credentials_of_text(a + line.push('\n') + b) == credentials_of_text(a + b),
{
    lemma_push_line(a, line);
    lemma_lines_concat(a + line.push('\n'), b);
    lemma_lines_concat(a, b);
    let d = lines_of(a).drop_last();
    assert(lines_of(a + line.push('\n')).drop_last() =~= d + seq![line]);
    lemma_fold_concat(empty_record(), d + seq![line], lines_of(b));
    lemma_fold_concat(empty_record(), d, seq![line]);
    lemma_fold_concat(empty_record(), d, lines_of(b));
    let before = fold_lines(empty_record(), d);
    lemma_fold_one(before, line);
    assert(apply_line(before, line) == before);
}

/// A credential record as the credential-helper protocol exchanges it.
pub struct Credentials {
    protocol: Option<String>,
    host: Option<String>,
    path: Option<String>,
    username: Option<String>,
    password: Option<String>,
    password_expiry_utc: Option<String>,
    oauth_refresh_token: Option<String>,
    url: Option<String>,
    wwwauth: Option<Vec<String>>,
}

impl View for Credentials {
    type V = CredentialsView;

    closed spec fn view(&self) -> CredentialsView {
        CredentialsView {
            protocol: self.protocol.deep_view(),
            host: self.host.deep_view(),
            path: self.path.deep_view(),
            username: self.username.deep_view(),
            password: self.password.deep_view(),
            password_expiry_utc: self.password_expiry_utc.deep_view(),
            oauth_refresh_token: self.oauth_refresh_token.deep_view(),
            url: self.url.deep_view(),
            wwwauth: match self.wwwauth {
                Some(v) => Some(string_texts(v@)),
                None => None,
            },
        }
    }
}

/// Appends `key=value` and a newline when the value is present.
fn push_field(out: &mut String, key: &str, value: &Option<String>)
    ensures
        final(out)@ == old(out)@ + field_line(key@, value.deep_view()),
{
    match value {
        Some(v) => {
            out.append(key);
            out.append("=");
            out.append(v.as_str());
            out.append("\n");
            proof {
                reveal_strlit("=");
                reveal_strlit("\n");
                assert(final(out)@ =~= old(out)@ + field_line(key@, value.deep_view()));
            }
        },
        None => {
            assert(final(out)@ =~= old(out)@ + field_line(key@, value.deep_view()));
        },
    }
}

/// Whether the characters `chars[from..to]` spell `key`.
fn spells(chars: &Vec<char>, from: usize, to: usize, key: &str) -> (r: bool)
    requires
        from <= to <= chars@.len(),
    ensures
        r == (chars@.subrange(from as int, to as int) == key@),
{
    let n = key.unicode_len();
    if to - from != n {
        return false;
    }
    let mut k: usize = 0;
    while k < n
        invariant
            k <= n,
            n == key@.len(),
            to - from == n,
            from <= to <= chars@.len(),
            forall|j: int| 0 <= j < k ==> chars@[from + j] == key@[j],
        decreases n - k,
    {
        if chars[from + k] != key.get_char(k) {
            assert(chars@.subrange(from as int, to as int)[k as int] != key@[k as int]);
            return false;
        }
        k = k + 1;
    }
    assert(chars@.subrange(from as int, to as int) =~= key@);
    true
}

/// The characters of a text, in order.
fn chars_of(s: &str) -> (r: Vec<char>)
    ensures
        r@ == s@,
{
    let mut out: Vec<char> = Vec::new();
    for c in it: s.chars()
        invariant
            it.seq() == s@,
            out@ == it.seq().take(it.index() as int),
    {
        out.push(c);
        assert(out@ =~= it.seq().take(it.index() as int + 1));
    }
    assert(out@ =~= s@);
    out
}

impl Credentials {
    pub fn with_url(url: &str) -> (r: Credentials)
        ensures
            r@ == (CredentialsView { url: Some(url@), ..empty_record() }),
    {
        Credentials {
            url: Some(url.to_owned()),
            username: None,
            password: None,
            protocol: None,
            host: None,
            path: None,
            password_expiry_utc: None,
            oauth_refresh_token: None,
            wwwauth: None,
        }
    }

    pub fn with_url_username_password(url: &str, username: &str, password: &str) -> (r:
        Credentials)
        ensures
            r@ == (CredentialsView {
                url: Some(url@),
                username: Some(username@),
                password: Some(password@),
                ..empty_record()
            }),
    {
        Credentials {
            url: Some(url.to_owned()),
            username: Some(username.to_owned()),
            password: Some(password.to_owned()),
            protocol: None,
            host: None,
            path: None,
            password_expiry_utc: None,
            oauth_refresh_token: None,
            wwwauth: None,
        }
    }

    pub fn protocol(&self) -> (r: &Option<String>)
        ensures
            r.deep_view() == self@.protocol,
    {
        &self.protocol
    }

    pub fn host(&self) -> (r: &Option<String>)
        ensures
            r.deep_view() == self@.host,
    {
        &self.host
    }

    pub fn path(&self) -> (r: &Option<String>)
        ensures
            r.deep_view() == self@.path,
    {
        &self.path
    }

    pub fn username(&self) -> (r: &Option<String>)
        ensures
            r.deep_view() == self@.username,
    {
        &self.username
    }

    pub fn password(&self) -> (r: &Option<String>)
        ensures
            r.deep_view() == self@.password,
    {
        &self.password
    }

    pub fn password_expiry_utc(&self) -> (r: &Option<String>)
        ensures
            r.deep_view() == self@.password_expiry_utc,
    {
        &self.password_expiry_utc
    }

    pub fn oauth_refresh_token(&self) -> (r: &Option<String>)
        ensures
            r.deep_view() == self@.oauth_refresh_token,
    {
        &self.oauth_refresh_token
    }

    pub fn url(&self) -> (r: &Option<String>)
        ensures
            r.deep_view() == self@.url,
    {
        &self.url
    }

    pub fn wwwauth(&self) -> (r: &Option<Vec<String>>)
        ensures
            match r {
                Some(v) => self@.wwwauth == Some(string_texts(v@)),
                None => self@.wwwauth is None,
            },
    {
        &self.wwwauth
    }

    /// The record with every field absent.
    pub fn empty() -> (r: Credentials)
        ensures
            r@ == empty_record(),
    {
        Credentials {
            protocol: None,
            host: None,
            path: None,
            username: None,
            password: None,
            password_expiry_utc: None,
            oauth_refresh_token: None,
            url: None,
            wwwauth: None,
        }
    }

    /// Reads the line `chars[from..to]` of `text` into the record.
    fn read_line(&mut self, chars: &Vec<char>, text: &str, from: usize, to: usize)
        requires
            chars@ == text@,
            from <= to <= chars@.len(),
        ensures
            final(self)@ == apply_line(old(self)@, chars@.subrange(from as int, to as int)),
    {
        let ghost line = chars@.subrange(from as int, to as int);
        let mut j: usize = from;
        while j < to && chars[j] != '='
            invariant
                from <= j <= to <= chars@.len(),
                forall|k: int| from <= k < j ==> chars@[k] != '=',
            decreases to - j,
        {
            j = j + 1;
        }
        proof {
            lemma_first_eq(line, j - from);
        }
        if j == to {
            return;
        }
        let value = text.substring_char(j + 1, to).to_owned();
        proof {
            assert(line.take(j - from) =~= chars@.subrange(from as int, j as int));
            assert(line.skip(j - from + 1) =~= value@);
        }
        if spells(chars, from, j, "protocol") {
            self.protocol = Some(value);
        } else if spells(chars, from, j, "host") {
            self.host = Some(value);
        } else if spells(chars, from, j, "path") {
            self.path = Some(value);
        } else if spells(chars, from, j, "username") {
            self.username = Some(value);
        } else if spells(chars, from, j, "password") {
            self.password = Some(value);
        } else if spells(chars, from, j, "password_expiry_utc") {
            self.password_expiry_utc = Some(value);
        } else if spells(chars, from, j, "oauth_refresh_token") {
            self.oauth_refresh_token = Some(value);
        } else if spells(chars, from, j, "url") {
            self.url = Some(value);
        }
    }

    /// Reads a protocol text: each line is split at its first `=`; a known key sets its
    /// field, and a later line wins over an earlier one; lines without `=` and unknown
    /// keys are skipped. Reading never fails.
    pub fn parse(text: &str) -> (r: Credentials)
        ensures
            r@ == credentials_of_text(text@),
    {
        let chars = chars_of(text);
        let mut r = Credentials::empty();
        let ghost mut done: Seq<Seq<char>> = Seq::empty();
        let mut start: usize = 0;
        let mut i: usize = 0;
        assert(chars@.take(0) =~= Seq::<char>::empty());
        assert(chars@.subrange(0, 0) =~= Seq::<char>::empty());
        assert(lines_of(chars@.take(0)) =~= done.push(chars@.subrange(0, 0)));
        while i < chars.len()
            invariant
                start <= i <= chars@.len(),
                chars@ == text@,
                lines_of(chars@.take(i as int)) == done.push(chars@.subrange(start as int, i as int)),
                r@ == fold_lines(empty_record(), done),
            decreases chars@.len() - i,
        {
            assert(chars@.take(i + 1).drop_last() =~= chars@.take(i as int));
            if chars[i] == '\n' {
                r.read_line(&chars, text, start, i);
                proof {
                    let prev = done;
                    done = done.push(chars@.subrange(start as int, i as int));
                    assert(done.drop_last() =~= prev);
                }
                start = i + 1;
                assert(chars@.take(i + 1).last() == '\n');
                assert(chars@.subrange(start as int, i + 1) =~= Seq::<char>::empty());
                assert(lines_of(chars@.take(i + 1)) =~= lines_of(chars@.take(i as int)).push(Seq::empty()));
                assert(lines_of(chars@.take(i + 1)) =~= done.push(chars@.subrange(start as int, i + 1)));
            } else {
                assert(chars@.subrange(start as int, i + 1) =~= chars@.subrange(start as int, i as int).push(chars@[i as int]));
            }
            i = i + 1;
        }
        r.read_line(&chars, text, start, i);
        proof {
            let all = done.push(chars@.subrange(start as int, i as int));
            assert(all.drop_last() =~= done);
            assert(chars@.take(i as int) =~= text@);
        }
        r
    }

    /// The protocol text of the record: `key=value` lines for the present scalar fields.
    pub fn to_string(&self) -> (r: String)
        ensures
            r@ == credentials_text(self@),
    {
        let mut out = String::new();
        push_field(&mut out, "protocol", &self.protocol);
        push_field(&mut out, "host", &self.host);
        push_field(&mut out, "path", &self.path);
        push_field(&mut out, "username", &self.username);
        push_field(&mut out, "password", &self.password);
        push_field(&mut out, "password_expiry_utc", &self.password_expiry_utc);
        push_field(&mut out, "oauth_refresh_token", &self.oauth_refresh_token);
        push_field(&mut out, "url", &self.url);
        assert(out@ =~= credentials_text(self@));
        out
    }
}

} // verus!
