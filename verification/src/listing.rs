use vstd::prelude::*;

use crate::ty::User;

verus! {

/// In-line whitespace of a session listing: blanks and tabs between
/// fields, and a carriage return left at a line end.
pub open spec fn is_field_ws(c: char) -> bool {
    c == ' ' || c == '\t' || c == '\r'
}

/// The listing split at newlines, empty lines kept.
pub open spec fn spec_split_lines(s: Seq<char>) -> Seq<Seq<char>>
    decreases s.len(),
{
    if s.len() == 0 {
        seq![Seq::<char>::empty()]
    } else if s.last() == '\n' {
        spec_split_lines(s.drop_last()).push(Seq::empty())
    } else {
        let r = spec_split_lines(s.drop_last());
        r.update(r.len() - 1, r.last().push(s.last()))
    }
}

/// What remains of a line after its leading whitespace.
pub open spec fn skip_ws(line: Seq<char>) -> Seq<char>
    decreases line.len(),
{
    if line.len() == 0 {
        line
    } else if is_field_ws(line.first()) {
        skip_ws(line.drop_first())
    } else {
        line
    }
}

/// The prefix of a line up to its first whitespace.
pub open spec fn take_until_ws(line: Seq<char>) -> Seq<char>
    decreases line.len(),
{
    if line.len() == 0 {
        line
    } else if is_field_ws(line.first()) {
        Seq::empty()
    } else {
        seq![line.first()] + take_until_ws(line.drop_first())
    }
}

/// The first whitespace-delimited field of a line: on a session listing,
/// the user name of one login. Empty when the line holds no field.
pub open spec fn spec_first_field(line: Seq<char>) -> Seq<char> {
    take_until_ws(skip_ws(line))
}

/// The first field of every line that has one.
pub open spec fn spec_names_of_lines(lines: Seq<Seq<char>>) -> Seq<Seq<char>>
    decreases lines.len(),
{
    if lines.len() == 0 {
        Seq::empty()
    } else {
        let rest = spec_names_of_lines(lines.drop_last());
        let t = spec_first_field(lines.last());
        if t.len() > 0 {
            rest.push(t)
        } else {
            rest
        }
    }
}

/// The user names a session listing shows, one per non-blank line.
pub open spec fn spec_login_names(s: Seq<char>) -> Seq<Seq<char>> {
    spec_names_of_lines(spec_split_lines(s))
}

/// Splits a listing into its lines.
pub fn split_lines(s: &str) -> (r: Vec<String>)
    ensures
        r.deep_view() == spec_split_lines(s@),
{
    let n = s.unicode_len();
    let mut done: Vec<String> = Vec::new();
    let mut start: usize = 0;
    let mut i: usize = 0;
    proof {
        assert(s@.take(0).len() == 0);
        assert(done.deep_view().push(s@.subrange(0, 0)) =~~= seq![Seq::<char>::empty()]);
    }
    while i < n
        invariant
            start <= i <= n,
            n == s@.len(),
            spec_split_lines(s@.take(i as int)) =~~= done.deep_view().push(
                s@.subrange(start as int, i as int),
            ),
        decreases n - i,
    {
        let ghost done_pre = done.deep_view();
        let ghost start_pre = start as int;
        let c = s.get_char(i);
        if c == '\n' {
            let line = s.substring_char(start, i);
            done.push(String::from_str(line));
            start = i + 1;
        }
        proof {
            assert(s@.take(i + 1).drop_last() =~= s@.take(i as int));
            assert(s@.take(i + 1).last() == s@[i as int]);
            if c == '\n' {
                assert(done.deep_view() =~~= done_pre.push(s@.subrange(start_pre, i as int)));
                assert(s@.subrange(start as int, i + 1) =~= Seq::<char>::empty());
                assert(spec_split_lines(s@.take(i + 1)) =~~= done.deep_view().push(
                    s@.subrange(start as int, i + 1),
                ));
            } else {
                let r0 = spec_split_lines(s@.take(i as int));
                assert(r0.len() == done_pre.len() + 1);
                assert(r0.last() == s@.subrange(start_pre, i as int));
                assert(r0.update(r0.len() - 1, r0.last().push(s@[i as int])) =~~= done_pre.push(
                    s@.subrange(start_pre, i as int).push(s@[i as int]),
                ));
                assert(s@.subrange(start_pre, i as int).push(s@[i as int]) =~= s@.subrange(
                    start_pre,
                    i + 1,
                ));
                assert(spec_split_lines(s@.take(i + 1)) =~~= done.deep_view().push(
                    s@.subrange(start as int, i + 1),
                ));
            }
        }
        i += 1;
    }
    let line = s.substring_char(start, n);
    done.push(String::from_str(line));
    proof {
        assert(s@.take(n as int) =~= s@);
    }
    done
}

fn field_ws_at(line: &str, p: usize) -> (r: bool)
    requires
        p < line@.len(),
    ensures
        r == is_field_ws(line@[p as int]),
{
    let c = line.get_char(p);
    c == ' ' || c == '\t' || c == '\r'
}

/// The first whitespace-delimited field of one line.
pub fn first_field(line: &str) -> (r: String)
    ensures
        r@ == spec_first_field(line@),
{
    let n = line.unicode_len();
    let mut p: usize = 0;
    proof {
        assert(line@.subrange(0, n as int) =~= line@);
    }
    while p < n && field_ws_at(line, p)
        invariant
            p <= n,
            n == line@.len(),
            skip_ws(line@) =~= skip_ws(line@.subrange(p as int, n as int)),
        decreases n - p,
    {
        proof {
            let cur = line@.subrange(p as int, n as int);
            assert(cur.first() == line@[p as int]);
            assert(cur.drop_first() =~= line@.subrange(p + 1, n as int));
        }
        p += 1;
    }
    proof {
        let cur = line@.subrange(p as int, n as int);
        if p < n {
            assert(cur.first() == line@[p as int]);
            assert(!is_field_ws(cur.first()));
        }
        assert(skip_ws(line@) =~= line@.subrange(p as int, n as int));
    }
    let mut q: usize = p;
    while q < n && !field_ws_at(line, q)
        invariant
            p <= q <= n,
            n == line@.len(),
            skip_ws(line@) =~= line@.subrange(p as int, n as int),
            take_until_ws(line@.subrange(p as int, n as int)) =~= line@.subrange(
                p as int,
                q as int,
            ) + take_until_ws(line@.subrange(q as int, n as int)),
        decreases n - q,
    {
        proof {
            let cur = line@.subrange(q as int, n as int);
            assert(cur.first() == line@[q as int]);
            assert(cur.drop_first() =~= line@.subrange(q + 1, n as int));
            assert(line@.subrange(p as int, q as int) + (seq![line@[q as int]] + take_until_ws(
                line@.subrange(q + 1, n as int),
            )) =~= line@.subrange(p as int, q + 1) + take_until_ws(
                line@.subrange(q + 1, n as int),
            ));
        }
        q += 1;
    }
    proof {
        let cur = line@.subrange(q as int, n as int);
        if q < n {
            assert(cur.first() == line@[q as int]);
        }
        assert(take_until_ws(cur) =~= Seq::<char>::empty());
        assert(spec_first_field(line@) =~= line@.subrange(p as int, q as int));
    }
    let field = line.substring_char(p, q);
    String::from_str(field)
}

/// The compute half of the login poll: the user names a raw session
/// listing shows, one per non-blank line, name first on each line.
pub fn login_names(listing: &str) -> (r: Vec<String>)
    ensures
        r.deep_view() == spec_login_names(listing@),
{
    let lines = split_lines(listing);
    let ghost lv = lines.deep_view();
    let mut r: Vec<String> = Vec::new();
    let mut i: usize = 0;
    while i < lines.len()
        invariant
            i <= lv.len(),
            lv == lines.deep_view(),
            lv.len() == lines@.len(),
            r.deep_view() =~= spec_names_of_lines(lv.take(i as int)),
        decreases lines@.len() - i,
    {
        let ghost r_pre = r.deep_view();
        let t = first_field(lines[i].as_str());
        if !t.as_str().is_empty() {
            r.push(t);
        }
        proof {
            assert(lv.take(i + 1).drop_last() =~= lv.take(i as int));
            assert(lv.take(i + 1).last() == lv[i as int]);
            assert(lv[i as int] == lines@[i as int]@);
            assert(r.deep_view() =~= spec_names_of_lines(lv.take(i + 1)));
        }
        i += 1;
    }
    proof {
        assert(lv.take(lv.len() as int) =~= lv);
    }
    r
}

/// Whether `name` names a configured identity.
pub open spec fn spec_is_configured(users: Seq<User>, name: Seq<char>) -> bool {
    exists|j: int| 0 <= j < users.len() && users[j].name@ == name
}

fn is_configured(users: &Vec<User>, name: &String) -> (r: bool)
    ensures
        r == spec_is_configured(users@, name@),
{
    let mut j: usize = 0;
    while j < users.len()
        invariant
            j <= users@.len(),
            forall|q: int| 0 <= q < j ==> users@[q].name@ != name@,
        decreases users@.len() - j,
    {
        if users[j].name.eq(name) {
            proof {
                assert(users@[j as int].name@ == name@);
            }
            return true;
        }
        j += 1;
    }
    false
}

/// The polled names that the identity table knows, in listing order.
pub open spec fn spec_configured_logins(names: Seq<Seq<char>>, users: Seq<User>) -> Seq<Seq<char>>
    decreases names.len(),
{
    if names.len() == 0 {
        Seq::empty()
    } else {
        let rest = spec_configured_logins(names.drop_last(), users);
        if spec_is_configured(users, names.last()) {
            rest.push(names.last())
        } else {
            rest
        }
    }
}

/// Keeps the polled names that belong to configured identities.
pub fn configured_logins(names: &Vec<String>, users: &Vec<User>) -> (r: Vec<String>)
    ensures
        r.deep_view() == spec_configured_logins(names.deep_view(), users@),
{
    let ghost nv = names.deep_view();
    let mut r: Vec<String> = Vec::new();
    let mut i: usize = 0;
    while i < names.len()
        invariant
            i <= nv.len(),
            nv == names.deep_view(),
            nv.len() == names@.len(),
            r.deep_view() =~= spec_configured_logins(nv.take(i as int), users@),
        decreases names@.len() - i,
    {
        if is_configured(users, &names[i]) {
            r.push(names[i].clone());
        }
        proof {
            assert(nv.take(i + 1).drop_last() =~= nv.take(i as int));
            assert(nv.take(i + 1).last() == nv[i as int]);
            assert(nv[i as int] == names@[i as int]@);
            assert(r.deep_view() =~= spec_configured_logins(nv.take(i + 1), users@));
        }
        i += 1;
    }
    proof {
        assert(nv.take(nv.len() as int) =~= nv);
    }
    r
}

/// From the raw session listing to the currently logged-in configured
/// identities: the compute half of the poll, once the raw listing has
/// been read from the host.
pub fn logged_in_users_from_listing(listing: &str, users: &Vec<User>) -> (r: Vec<String>)
    ensures
        r.deep_view() == spec_configured_logins(spec_login_names(listing@), users@),
{
    let names = login_names(listing);
    configured_logins(&names, users)
}

} // verus!
