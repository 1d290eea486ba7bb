//! The listing machinery of the index endpoints: row filters, the stable
//! newest-first orders, and page windows.

use vstd::prelude::*;

use crate::models::{Post, PostType, Session, User};
use crate::text::{contains_ci, like_match};
use crate::web::page_window;

verus! {

/// Which rows a post listing selects, always combined with the text filter.
pub enum PostFilter {
    ByText,
    ByParent(u128),
    ByParentReply(u128),
    ByUser(u128),
}

pub open spec fn post_hit(f: PostFilter, p: Post, q: Seq<char>) -> bool {
    &&& like_match(p.text@, q)
    &&& (match f {
        PostFilter::ByText => true,
        PostFilter::ByParent(id) => p.parent_post_id == Some(id),
        PostFilter::ByParentReply(id) => p.parent_post_id == Some(id) && p.kind == PostType::Reply,
        PostFilter::ByUser(uid) => p.user_id == uid,
    })
}

/// The selected posts, in table order.
pub open spec fn filter_posts(posts: Seq<Post>, f: PostFilter, q: Seq<char>) -> Seq<Post>
    decreases posts.len(),
{
    if posts.len() == 0 {
        Seq::empty()
    } else {
        filter_posts(posts.drop_last(), f, q) + (if post_hit(f, posts.last(), q) {
            seq![posts.last()]
        } else {
            Seq::empty()
        })
    }
}

fn post_hit_exec(f: &PostFilter, p: &Post, q: &str) -> (r: bool)
    ensures
        r == post_hit(*f, *p, q@),
{
    let scope_ok = match f {
        PostFilter::ByText => true,
        PostFilter::ByParent(id) => match &p.parent_post_id {
            Option::Some(v) => *v == *id,
            Option::None => false,
        },
        PostFilter::ByParentReply(id) => p.kind == PostType::Reply && (match &p.parent_post_id {
            Option::Some(v) => *v == *id,
            Option::None => false,
        }),
        PostFilter::ByUser(uid) => p.user_id == *uid,
    };
    scope_ok && contains_ci(p.text.as_str(), q)
}

pub fn select_posts(posts: &Vec<Post>, f: &PostFilter, q: &str) -> (out: Vec<Post>)
    ensures
        out@ == filter_posts(posts@, *f, q@),
{
    let mut out: Vec<Post> = Vec::new();
    let mut i: usize = 0;
    assert(posts@.subrange(0, 0) =~= Seq::<Post>::empty());
    while i < posts.len()
        invariant
            i <= posts@.len(),
            out@ == filter_posts(posts@.subrange(0, i as int), *f, q@),
        decreases posts@.len() - i,
    {
        let ghost prefix = posts@.subrange(0, i + 1);
        assert(prefix.drop_last() =~= posts@.subrange(0, i as int));
        assert(prefix.last() == posts@[i as int]);
        if post_hit_exec(f, &posts[i], q) {
            out.push(posts[i].clone());
            assert(out@ =~= filter_posts(posts@.subrange(0, i as int), *f, q@) + seq![
                posts@[i as int],
            ]);
        } else {
            assert(out@ =~= filter_posts(posts@.subrange(0, i as int), *f, q@)
                + Seq::<Post>::empty());
        }
        i = i + 1;
    }
    assert(posts@.subrange(0, posts@.len() as int) =~= posts@);
    out
}

/// Insert into a newest-first list, after every row that is at least as
/// new: a later table row with an equal stamp stays behind an earlier one.
pub open spec fn insert_post_desc(sorted: Seq<Post>, p: Post) -> Seq<Post>
    decreases sorted.len(),
{
    if sorted.len() == 0 {
        seq![p]
    } else if sorted[0].created_at >= p.created_at {
        seq![sorted[0]] + insert_post_desc(sorted.drop_first(), p)
    } else {
        seq![p] + sorted
    }
}

/// The selected posts ordered newest first, stably.
pub open spec fn sort_posts_desc(s: Seq<Post>) -> Seq<Post>
    decreases s.len(),
{
    if s.len() == 0 {
        Seq::empty()
    } else {
        insert_post_desc(sort_posts_desc(s.drop_last()), s.last())
    }
}

proof fn lemma_insert_post_desc_at(s: Seq<Post>, p: Post, k: int)
    requires
        0 <= k <= s.len(),
        forall|j: int| 0 <= j < k ==> (#[trigger] s[j]).created_at >= p.created_at,
        k < s.len() ==> s[k].created_at < p.created_at,
    ensures
        insert_post_desc(s, p) == s.subrange(0, k) + seq![p] + s.subrange(k, s.len() as int),
    decreases k,
{
    if k == 0 {
        if s.len() == 0 {
            assert(insert_post_desc(s, p) =~= s.subrange(0, 0) + seq![p] + s.subrange(0, 0));
        } else {
            assert(insert_post_desc(s, p) =~= s.subrange(0, 0) + seq![p] + s.subrange(
                0,
                s.len() as int,
            ));
        }
    } else {
        assert(s[0].created_at >= p.created_at);
        lemma_insert_post_desc_at(s.drop_first(), p, k - 1);
        assert(forall|j: int|
            0 <= j < s.len() - 1 ==> #[trigger] s.drop_first()[j] == s[j + 1]);
        assert(insert_post_desc(s, p) =~= s.subrange(0, k) + seq![p] + s.subrange(
            k,
            s.len() as int,
        )) by {
            assert(s.drop_first().subrange(0, k - 1) =~= s.subrange(1, k));
            assert(s.drop_first().subrange(k - 1, s.len() - 1) =~= s.subrange(k, s.len() as int));
        }
    }
}

fn insert_sorted_post(sorted: &mut Vec<Post>, p: Post)
    ensures
        final(sorted)@ == insert_post_desc(old(sorted)@, p),
{
    let ghost orig = sorted@;
    let n = sorted.len();
    let mut k: usize = 0;
    while k < n && sorted[k].created_at >= p.created_at
        invariant
            k <= n,
            n == sorted@.len(),
            sorted@ == orig,
            forall|j: int| 0 <= j < k ==> (#[trigger] orig[j]).created_at >= p.created_at,
        decreases n - k,
    {
        k = k + 1;
    }
    proof {
        lemma_insert_post_desc_at(orig, p, k as int);
    }
    sorted.insert(k, p);
    assert(sorted@ =~= orig.subrange(0, k as int) + seq![p] + orig.subrange(
        k as int,
        orig.len() as int,
    ));
}

pub fn sort_posts(rows: Vec<Post>) -> (out: Vec<Post>)
    ensures
        out@ == sort_posts_desc(rows@),
{
    let mut out: Vec<Post> = Vec::new();
    let mut i: usize = 0;
    assert(rows@.subrange(0, 0) =~= Seq::<Post>::empty());
    while i < rows.len()
        invariant
            i <= rows@.len(),
            out@ == sort_posts_desc(rows@.subrange(0, i as int)),
        decreases rows@.len() - i,
    {
        let ghost prefix = rows@.subrange(0, i + 1);
        assert(prefix.drop_last() =~= rows@.subrange(0, i as int));
        assert(prefix.last() == rows@[i as int]);
        insert_sorted_post(&mut out, rows[i].clone());
        i = i + 1;
    }
    assert(rows@.subrange(0, rows@.len() as int) =~= rows@);
    out
}

/// Which rows a session listing selects.
pub enum SessionFilter {
    All,
    ActiveOfUser(u128, i64),
}

pub open spec fn session_hit(f: SessionFilter, s: Session) -> bool {
    match f {
        SessionFilter::All => true,
        SessionFilter::ActiveOfUser(uid, now) => s.user_id == uid && s.expires_at > now,
    }
}

pub open spec fn filter_sessions(sessions: Seq<Session>, f: SessionFilter) -> Seq<Session>
    decreases sessions.len(),
{
    if sessions.len() == 0 {
        Seq::empty()
    } else {
        filter_sessions(sessions.drop_last(), f) + (if session_hit(f, sessions.last()) {
            seq![sessions.last()]
        } else {
            Seq::empty()
        })
    }
}

pub fn select_sessions(sessions: &Vec<Session>, f: &SessionFilter) -> (out: Vec<Session>)
    ensures
        out@ == filter_sessions(sessions@, *f),
{
    let mut out: Vec<Session> = Vec::new();
    let mut i: usize = 0;
    assert(sessions@.subrange(0, 0) =~= Seq::<Session>::empty());
    while i < sessions.len()
        invariant
            i <= sessions@.len(),
            out@ == filter_sessions(sessions@.subrange(0, i as int), *f),
        decreases sessions@.len() - i,
    {
        let ghost prefix = sessions@.subrange(0, i + 1);
        assert(prefix.drop_last() =~= sessions@.subrange(0, i as int));
        assert(prefix.last() == sessions@[i as int]);
        let hit = match f {
            SessionFilter::All => true,
            SessionFilter::ActiveOfUser(uid, now) => sessions[i].user_id == *uid
                && sessions[i].expires_at > *now,
        };
        if hit {
            out.push(sessions[i].clone());
            assert(out@ =~= filter_sessions(sessions@.subrange(0, i as int), *f) + seq![
                sessions@[i as int],
            ]);
        } else {
            assert(out@ =~= filter_sessions(sessions@.subrange(0, i as int), *f)
                + Seq::<Session>::empty());
        }
        i = i + 1;
    }
    assert(sessions@.subrange(0, sessions@.len() as int) =~= sessions@);
    out
}

pub open spec fn insert_session_desc(sorted: Seq<Session>, s: Session) -> Seq<Session>
    decreases sorted.len(),
{
    if sorted.len() == 0 {
        seq![s]
    } else if sorted[0].expires_at >= s.expires_at {
        seq![sorted[0]] + insert_session_desc(sorted.drop_first(), s)
    } else {
        seq![s] + sorted
    }
}

/// The selected sessions ordered by expiry, latest first, stably.
pub open spec fn sort_sessions_desc(s: Seq<Session>) -> Seq<Session>
    decreases s.len(),
{
    if s.len() == 0 {
        Seq::empty()
    } else {
        insert_session_desc(sort_sessions_desc(s.drop_last()), s.last())
    }
}

proof fn lemma_insert_session_desc_at(s: Seq<Session>, p: Session, k: int)
    requires
        0 <= k <= s.len(),
        forall|j: int| 0 <= j < k ==> (#[trigger] s[j]).expires_at >= p.expires_at,
        k < s.len() ==> s[k].expires_at < p.expires_at,
    ensures
        insert_session_desc(s, p) == s.subrange(0, k) + seq![p] + s.subrange(k, s.len() as int),
    decreases k,
{
    if k == 0 {
        if s.len() == 0 {
            assert(insert_session_desc(s, p) =~= s.subrange(0, 0) + seq![p] + s.subrange(0, 0));
        } else {
            assert(insert_session_desc(s, p) =~= s.subrange(0, 0) + seq![p] + s.subrange(
                0,
                s.len() as int,
            ));
        }
    } else {
        assert(s[0].expires_at >= p.expires_at);
        lemma_insert_session_desc_at(s.drop_first(), p, k - 1);
        assert(forall|j: int|
            0 <= j < s.len() - 1 ==> #[trigger] s.drop_first()[j] == s[j + 1]);
        assert(insert_session_desc(s, p) =~= s.subrange(0, k) + seq![p] + s.subrange(
            k,
            s.len() as int,
        )) by {
            assert(s.drop_first().subrange(0, k - 1) =~= s.subrange(1, k));
            assert(s.drop_first().subrange(k - 1, s.len() - 1) =~= s.subrange(k, s.len() as int));
        }
    }
}

fn insert_sorted_session(sorted: &mut Vec<Session>, p: Session)
    ensures
        final(sorted)@ == insert_session_desc(old(sorted)@, p),
{
    let ghost orig = sorted@;
    let n = sorted.len();
    let mut k: usize = 0;
    while k < n && sorted[k].expires_at >= p.expires_at
        invariant
            k <= n,
            n == sorted@.len(),
            sorted@ == orig,
            forall|j: int| 0 <= j < k ==> (#[trigger] orig[j]).expires_at >= p.expires_at,
        decreases n - k,
    {
        k = k + 1;
    }
    proof {
        lemma_insert_session_desc_at(orig, p, k as int);
    }
    sorted.insert(k, p);
    assert(sorted@ =~= orig.subrange(0, k as int) + seq![p] + orig.subrange(
        k as int,
        orig.len() as int,
    ));
}

pub fn sort_sessions(rows: Vec<Session>) -> (out: Vec<Session>)
    ensures
        out@ == sort_sessions_desc(rows@),
{
    let mut out: Vec<Session> = Vec::new();
    let mut i: usize = 0;
    assert(rows@.subrange(0, 0) =~= Seq::<Session>::empty());
    while i < rows.len()
        invariant
            i <= rows@.len(),
            out@ == sort_sessions_desc(rows@.subrange(0, i as int)),
        decreases rows@.len() - i,
    {
        let ghost prefix = rows@.subrange(0, i + 1);
        assert(prefix.drop_last() =~= rows@.subrange(0, i as int));
        assert(prefix.last() == rows@[i as int]);
        insert_sorted_session(&mut out, rows[i].clone());
        i = i + 1;
    }
    assert(rows@.subrange(0, rows@.len() as int) =~= rows@);
    out
}

/// The total a pagination envelope reports: the number of selected rows,
/// held at the numeric ceiling.
pub open spec fn spec_total(n: nat) -> int {
    if n > i64::MAX {
        i64::MAX as int
    } else {
        n as int
    }
}

pub fn total_of(n: usize) -> (r: i64)
    ensures
        r == spec_total(n as nat),
{
    if n as u64 > 0x7fff_ffff_ffff_ffffu64 {
        i64::MAX
    } else {
        n as i64
    }
}

/// The rows of the requested page of a post listing.
pub fn page_posts(rows: &Vec<Post>, page: i64, limit: i64) -> (out: Vec<Post>)
    requires
        page >= 1,
        1 <= limit <= 50,
    ensures
        out@ == page_window(rows@, page, limit),
{
    proof {
        assert((page as i128 - 1) * (limit as i128) <= (page as i128 - 1) * 50 && 0 <= (page
            as i128 - 1) * (limit as i128)) by (nonlinear_arith)
            requires
                1 <= limit <= 50,
                page >= 1,
        ;
    }
    let start128: i128 = (page as i128 - 1) * (limit as i128);
    let n = rows.len();
    if start128 >= n as i128 {
        assert(page_window(rows@, page, limit) =~= Seq::<Post>::empty());
        return Vec::new();
    }
    let start: usize = start128 as usize;
    let end: usize = if (start128 + limit as i128) > (n as i128) {
        n
    } else {
        (start128 + limit as i128) as usize
    };
    let mut out: Vec<Post> = Vec::new();
    let mut i = start;
    while i < end
        invariant
            start <= i <= end <= rows@.len(),
            out@ == rows@.subrange(start as int, i as int),
        decreases end - i,
    {
        out.push(rows[i].clone());
        assert(out@ =~= rows@.subrange(start as int, i + 1));
        i = i + 1;
    }
    assert(out@ =~= page_window(rows@, page, limit));
    out
}

/// The rows of the requested page of a session listing.
pub fn page_sessions(rows: &Vec<Session>, page: i64, limit: i64) -> (out: Vec<Session>)
    requires
        page >= 1,
        1 <= limit <= 50,
    ensures
        out@ == page_window(rows@, page, limit),
{
    proof {
        assert((page as i128 - 1) * (limit as i128) <= (page as i128 - 1) * 50 && 0 <= (page
            as i128 - 1) * (limit as i128)) by (nonlinear_arith)
            requires
                1 <= limit <= 50,
                page >= 1,
        ;
    }
    let start128: i128 = (page as i128 - 1) * (limit as i128);
    let n = rows.len();
    if start128 >= n as i128 {
        assert(page_window(rows@, page, limit) =~= Seq::<Session>::empty());
        return Vec::new();
    }
    let start: usize = start128 as usize;
    let end: usize = if (start128 + limit as i128) > (n as i128) {
        n
    } else {
        (start128 + limit as i128) as usize
    };
    let mut out: Vec<Session> = Vec::new();
    let mut i = start;
    while i < end
        invariant
            start <= i <= end <= rows@.len(),
            out@ == rows@.subrange(start as int, i as int),
        decreases end - i,
    {
        out.push(rows[i].clone());
        assert(out@ =~= rows@.subrange(start as int, i + 1));
        i = i + 1;
    }
    assert(out@ =~= page_window(rows@, page, limit));
    out
}


/// The users a user listing selects: username matching the text filter, in
/// table order (user listings carry no order clause).
pub open spec fn filter_users(users: Seq<User>, q: Seq<char>) -> Seq<User>
    decreases users.len(),
{
    if users.len() == 0 {
        Seq::empty()
    } else {
        filter_users(users.drop_last(), q) + (if like_match(users.last().username@, q) {
            seq![users.last()]
        } else {
            Seq::empty()
        })
    }
}

pub fn select_users(users: &Vec<User>, q: &str) -> (out: Vec<User>)
    ensures
        out@ == filter_users(users@, q@),
{
    let mut out: Vec<User> = Vec::new();
    let mut i: usize = 0;
    assert(users@.subrange(0, 0) =~= Seq::<User>::empty());
    while i < users.len()
        invariant
            i <= users@.len(),
            out@ == filter_users(users@.subrange(0, i as int), q@),
        decreases users@.len() - i,
    {
        let ghost prefix = users@.subrange(0, i + 1);
        assert(prefix.drop_last() =~= users@.subrange(0, i as int));
        assert(prefix.last() == users@[i as int]);
        if contains_ci(users[i].username.as_str(), q) {
            out.push(users[i].clone());
            assert(out@ =~= filter_users(users@.subrange(0, i as int), q@) + seq![
                users@[i as int],
            ]);
        } else {
            assert(out@ =~= filter_users(users@.subrange(0, i as int), q@) + Seq::<User>::empty());
        }
        i = i + 1;
    }
    assert(users@.subrange(0, users@.len() as int) =~= users@);
    out
}

/// The rows of the requested page of a user listing.
pub fn page_users(rows: &Vec<User>, page: i64, limit: i64) -> (out: Vec<User>)
    requires
        page >= 1,
        1 <= limit <= 50,
    ensures
        out@ == page_window(rows@, page, limit),
{
    proof {
        assert((page as i128 - 1) * (limit as i128) <= (page as i128 - 1) * 50 && 0 <= (page
            as i128 - 1) * (limit as i128)) by (nonlinear_arith)
            requires
                1 <= limit <= 50,
                page >= 1,
        ;
    }
    let start128: i128 = (page as i128 - 1) * (limit as i128);
    let n = rows.len();
    if start128 >= n as i128 {
        assert(page_window(rows@, page, limit) =~= Seq::<User>::empty());
        return Vec::new();
    }
    let start: usize = start128 as usize;
    let end: usize = if (start128 + limit as i128) > (n as i128) {
        n
    } else {
        (start128 + limit as i128) as usize
    };
    let mut out: Vec<User> = Vec::new();
    let mut i = start;
    while i < end
        invariant
            start <= i <= end <= rows@.len(),
            out@ == rows@.subrange(start as int, i as int),
        decreases end - i,
    {
        out.push(rows[i].clone());
        assert(out@ =~= rows@.subrange(start as int, i + 1));
        i = i + 1;
    }
    assert(out@ =~= page_window(rows@, page, limit));
    out
}

/// Every selected post is a row of the table.
pub proof fn lemma_filter_posts_contains(posts: Seq<Post>, f: PostFilter, q: Seq<char>)
    ensures
        forall|k: int|
            0 <= k < filter_posts(posts, f, q).len() ==> posts.contains(
                #[trigger] filter_posts(posts, f, q)[k],
            ),
    decreases posts.len(),
{
    if posts.len() > 0 {
        lemma_filter_posts_contains(posts.drop_last(), f, q);
        assert forall|k: int|
            0 <= k < filter_posts(posts, f, q).len() implies posts.contains(
            #[trigger] filter_posts(posts, f, q)[k],
        ) by {
            let fp = filter_posts(posts, f, q);
            let fp0 = filter_posts(posts.drop_last(), f, q);
            if k < fp0.len() {
                assert(fp[k] == fp0[k]);
                let j = choose|j: int| 0 <= j < posts.len() - 1 && posts.drop_last()[j] == fp0[k];
                assert(posts[j] == fp[k]);
            } else {
                assert(fp[k] == posts.last());
                assert(posts[posts.len() - 1] == fp[k]);
            }
        }
    }
}

pub proof fn lemma_insert_post_desc_contains(sorted: Seq<Post>, p: Post)
    ensures
        forall|k: int|
            0 <= k < insert_post_desc(sorted, p).len() ==> (#[trigger] insert_post_desc(
                sorted,
                p,
            )[k] == p || sorted.contains(insert_post_desc(sorted, p)[k])),
    decreases sorted.len(),
{
    if sorted.len() > 0 && sorted[0].created_at >= p.created_at {
        lemma_insert_post_desc_contains(sorted.drop_first(), p);
        assert forall|k: int|
            0 <= k < insert_post_desc(sorted, p).len() implies (#[trigger] insert_post_desc(
            sorted,
            p,
        )[k] == p || sorted.contains(insert_post_desc(sorted, p)[k])) by {
            let ins = insert_post_desc(sorted, p);
            let insr = insert_post_desc(sorted.drop_first(), p);
            if k == 0 {
                assert(ins[0] == sorted[0]);
            } else {
                assert(ins[k] == insr[k - 1]);
                if insr[k - 1] != p {
                    let j = choose|j: int|
                        0 <= j < sorted.len() - 1 && sorted.drop_first()[j] == insr[k - 1];
                    assert(sorted[j + 1] == ins[k]);
                }
            }
        }
    }
}

/// Every row of the ordered listing is a row of its input.
pub proof fn lemma_sort_posts_contains(s: Seq<Post>)
    ensures
        forall|k: int|
            0 <= k < sort_posts_desc(s).len() ==> s.contains(#[trigger] sort_posts_desc(s)[k]),
    decreases s.len(),
{
    if s.len() > 0 {
        lemma_sort_posts_contains(s.drop_last());
        lemma_insert_post_desc_contains(sort_posts_desc(s.drop_last()), s.last());
        assert forall|k: int|
            0 <= k < sort_posts_desc(s).len() implies s.contains(
            #[trigger] sort_posts_desc(s)[k],
        ) by {
            let out = sort_posts_desc(s);
            let inner = sort_posts_desc(s.drop_last());
            if out[k] == s.last() {
                assert(s[s.len() - 1] == out[k]);
            } else {
                assert(inner.contains(out[k]));
                let j = choose|j: int| 0 <= j < inner.len() && inner[j] == out[k];
                let j2 = choose|j2: int| 0 <= j2 < s.len() - 1 && s.drop_last()[j2] == out[k];
                assert(s[j2] == out[k]);
            }
        }
    }
}


} // verus!
