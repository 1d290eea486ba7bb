//! The typed store that the engine runs against: four in-memory tables with
//! the data-model invariant, and the operations the handlers need.

use vstd::prelude::*;

use crate::models::{Post, PostInteraction, PostInteractionType, PostType, Session, User, UserRole};

verus! {

/// Index of the first post with this id, or the length.
pub open spec fn post_idx(posts: Seq<Post>, id: u128) -> int
    decreases posts.len(),
{
    if posts.len() == 0 {
        0
    } else if posts[0].id == id {
        0
    } else {
        1 + post_idx(posts.drop_first(), id)
    }
}

pub proof fn lemma_post_idx(posts: Seq<Post>, id: u128)
    ensures
        0 <= post_idx(posts, id) <= posts.len(),
        post_idx(posts, id) < posts.len() ==> posts[post_idx(posts, id)].id == id,
        forall|k: int| 0 <= k < post_idx(posts, id) ==> (#[trigger] posts[k]).id != id,
    decreases posts.len(),
{
    if posts.len() > 0 && posts[0].id != id {
        lemma_post_idx(posts.drop_first(), id);
        assert forall|k: int| 0 <= k < post_idx(posts, id) implies (#[trigger] posts[k]).id
            != id by {
            if k > 0 {
                assert(posts[k] == posts.drop_first()[k - 1]);
            }
        }
    }
}

pub open spec fn spec_find_post(posts: Seq<Post>, id: u128) -> Option<Post> {
    if post_idx(posts, id) < posts.len() {
        Some(posts[post_idx(posts, id)])
    } else {
        None
    }
}

pub open spec fn user_idx(users: Seq<User>, id: u128) -> int
    decreases users.len(),
{
    if users.len() == 0 {
        0
    } else if users[0].id == id {
        0
    } else {
        1 + user_idx(users.drop_first(), id)
    }
}

pub proof fn lemma_user_idx(users: Seq<User>, id: u128)
    ensures
        0 <= user_idx(users, id) <= users.len(),
        user_idx(users, id) < users.len() ==> users[user_idx(users, id)].id == id,
        forall|k: int| 0 <= k < user_idx(users, id) ==> (#[trigger] users[k]).id != id,
    decreases users.len(),
{
    if users.len() > 0 && users[0].id != id {
        lemma_user_idx(users.drop_first(), id);
        assert forall|k: int| 0 <= k < user_idx(users, id) implies (#[trigger] users[k]).id
            != id by {
            if k > 0 {
                assert(users[k] == users.drop_first()[k - 1]);
            }
        }
    }
}

pub open spec fn spec_find_user(users: Seq<User>, id: u128) -> Option<User> {
    if user_idx(users, id) < users.len() {
        Some(users[user_idx(users, id)])
    } else {
        None
    }
}

pub open spec fn session_idx(sessions: Seq<Session>, id: u128) -> int
    decreases sessions.len(),
{
    if sessions.len() == 0 {
        0
    } else if sessions[0].id == id {
        0
    } else {
        1 + session_idx(sessions.drop_first(), id)
    }
}

pub proof fn lemma_session_idx(sessions: Seq<Session>, id: u128)
    ensures
        0 <= session_idx(sessions, id) <= sessions.len(),
        session_idx(sessions, id) < sessions.len() ==> sessions[session_idx(sessions, id)].id
            == id,
        forall|k: int| 0 <= k < session_idx(sessions, id) ==> (#[trigger] sessions[k]).id != id,
    decreases sessions.len(),
{
    if sessions.len() > 0 && sessions[0].id != id {
        lemma_session_idx(sessions.drop_first(), id);
        assert forall|k: int| 0 <= k < session_idx(sessions, id) implies (#[trigger] sessions[k]).id
            != id by {
            if k > 0 {
                assert(sessions[k] == sessions.drop_first()[k - 1]);
            }
        }
    }
}

pub open spec fn spec_find_session(sessions: Seq<Session>, id: u128) -> Option<Session> {
    if session_idx(sessions, id) < sessions.len() {
        Some(sessions[session_idx(sessions, id)])
    } else {
        None
    }
}

/// A session row is active for a bearer token when the token matches exactly
/// and it has not yet expired.
pub open spec fn token_matches(s: Session, token: Seq<char>, now: i64) -> bool {
    s.token@ == token && s.expires_at > now
}

pub open spec fn token_session_idx(sessions: Seq<Session>, token: Seq<char>, now: i64) -> int
    decreases sessions.len(),
{
    if sessions.len() == 0 {
        0
    } else if token_matches(sessions[0], token, now) {
        0
    } else {
        1 + token_session_idx(sessions.drop_first(), token, now)
    }
}

pub proof fn lemma_token_session_idx(sessions: Seq<Session>, token: Seq<char>, now: i64)
    ensures
        0 <= token_session_idx(sessions, token, now) <= sessions.len(),
        token_session_idx(sessions, token, now) < sessions.len() ==> token_matches(
            sessions[token_session_idx(sessions, token, now)],
            token,
            now,
        ),
        forall|k: int|
            0 <= k < token_session_idx(sessions, token, now) ==> !token_matches(
                #[trigger] sessions[k],
                token,
                now,
            ),
    decreases sessions.len(),
{
    if sessions.len() > 0 && !token_matches(sessions[0], token, now) {
        lemma_token_session_idx(sessions.drop_first(), token, now);
        assert forall|k: int|
            0 <= k < token_session_idx(sessions, token, now) implies !token_matches(
            #[trigger] sessions[k],
            token,
            now,
        ) by {
            if k > 0 {
                assert(sessions[k] == sessions.drop_first()[k - 1]);
            }
        }
    }
}

pub open spec fn spec_find_session_by_token(
    sessions: Seq<Session>,
    token: Seq<char>,
    now: i64,
) -> Option<Session> {
    if token_session_idx(sessions, token, now) < sessions.len() {
        Some(sessions[token_session_idx(sessions, token, now)])
    } else {
        None
    }
}

/// The user matched by a raw path id: a user whose id equals the parsed id,
/// or whose username equals the raw string.
pub open spec fn id_or_username_matches(u: User, id: Option<u128>, name: Seq<char>) -> bool {
    (id is Some && u.id == id->0) || u.username@ == name
}

pub open spec fn id_or_username_idx(users: Seq<User>, id: Option<u128>, name: Seq<char>) -> int
    decreases users.len(),
{
    if users.len() == 0 {
        0
    } else if id_or_username_matches(users[0], id, name) {
        0
    } else {
        1 + id_or_username_idx(users.drop_first(), id, name)
    }
}

pub proof fn lemma_id_or_username_idx(users: Seq<User>, id: Option<u128>, name: Seq<char>)
    ensures
        0 <= id_or_username_idx(users, id, name) <= users.len(),
        id_or_username_idx(users, id, name) < users.len() ==> id_or_username_matches(
            users[id_or_username_idx(users, id, name)],
            id,
            name,
        ),
        forall|k: int|
            0 <= k < id_or_username_idx(users, id, name) ==> !id_or_username_matches(
                #[trigger] users[k],
                id,
                name,
            ),
    decreases users.len(),
{
    if users.len() > 0 && !id_or_username_matches(users[0], id, name) {
        lemma_id_or_username_idx(users.drop_first(), id, name);
        assert forall|k: int|
            0 <= k < id_or_username_idx(users, id, name) implies !id_or_username_matches(
            #[trigger] users[k],
            id,
            name,
        ) by {
            if k > 0 {
                assert(users[k] == users.drop_first()[k - 1]);
            }
        }
    }
}

pub open spec fn spec_find_user_by_id_or_username(
    users: Seq<User>,
    id: Option<u128>,
    name: Seq<char>,
) -> Option<User> {
    if id_or_username_idx(users, id, name) < users.len() {
        Some(users[id_or_username_idx(users, id, name)])
    } else {
        None
    }
}

/// The user matched at login: by username or by email.
pub open spec fn logon_matches(u: User, logon: Seq<char>) -> bool {
    u.username@ == logon || u.email@ == logon
}

pub open spec fn logon_idx(users: Seq<User>, logon: Seq<char>) -> int
    decreases users.len(),
{
    if users.len() == 0 {
        0
    } else if logon_matches(users[0], logon) {
        0
    } else {
        1 + logon_idx(users.drop_first(), logon)
    }
}

pub proof fn lemma_logon_idx(users: Seq<User>, logon: Seq<char>)
    ensures
        0 <= logon_idx(users, logon) <= users.len(),
        logon_idx(users, logon) < users.len() ==> logon_matches(
            users[logon_idx(users, logon)],
            logon,
        ),
        forall|k: int|
            0 <= k < logon_idx(users, logon) ==> !logon_matches(#[trigger] users[k], logon),
    decreases users.len(),
{
    if users.len() > 0 && !logon_matches(users[0], logon) {
        lemma_logon_idx(users.drop_first(), logon);
        assert forall|k: int| 0 <= k < logon_idx(users, logon) implies !logon_matches(
            #[trigger] users[k],
            logon,
        ) by {
            if k > 0 {
                assert(users[k] == users.drop_first()[k - 1]);
            }
        }
    }
}

pub open spec fn spec_find_user_by_logon(users: Seq<User>, logon: Seq<char>) -> Option<User> {
    if logon_idx(users, logon) < users.len() {
        Some(users[logon_idx(users, logon)])
    } else {
        None
    }
}

pub open spec fn row_matches(
    r: PostInteraction,
    pid: Option<u128>,
    uid: Option<u128>,
    kind: Option<PostInteractionType>,
) -> bool {
    &&& (pid is Some ==> r.post_id == pid->0)
    &&& (uid is Some ==> r.user_id == uid->0)
    &&& (kind is Some ==> r.kind == kind->0)
}

/// Number of interaction rows matching the given filters.
pub open spec fn count_rows(
    s: Seq<PostInteraction>,
    pid: Option<u128>,
    uid: Option<u128>,
    kind: Option<PostInteractionType>,
) -> int
    decreases s.len(),
{
    if s.len() == 0 {
        0
    } else {
        (if row_matches(s[0], pid, uid, kind) {
            1int
        } else {
            0int
        }) + count_rows(s.drop_first(), pid, uid, kind)
    }
}

pub proof fn lemma_count_rows_concat(
    a: Seq<PostInteraction>,
    b: Seq<PostInteraction>,
    pid: Option<u128>,
    uid: Option<u128>,
    kind: Option<PostInteractionType>,
)
    ensures
        count_rows(a + b, pid, uid, kind) == count_rows(a, pid, uid, kind) + count_rows(
            b,
            pid,
            uid,
            kind,
        ),
    decreases a.len(),
{
    if a.len() == 0 {
        assert(a + b =~= b);
    } else {
        assert((a + b).drop_first() =~= a.drop_first() + b);
        assert((a + b)[0] == a[0]);
        lemma_count_rows_concat(a.drop_first(), b, pid, uid, kind);
    }
}

pub proof fn lemma_count_rows_nonneg(
    s: Seq<PostInteraction>,
    pid: Option<u128>,
    uid: Option<u128>,
    kind: Option<PostInteractionType>,
)
    ensures
        0 <= count_rows(s, pid, uid, kind) <= s.len(),
    decreases s.len(),
{
    if s.len() > 0 {
        lemma_count_rows_nonneg(s.drop_first(), pid, uid, kind);
    }
}

/// Removing the element at `i` lowers each count by that row's own match.
pub proof fn lemma_count_rows_remove(
    s: Seq<PostInteraction>,
    i: int,
    pid: Option<u128>,
    uid: Option<u128>,
    kind: Option<PostInteractionType>,
)
    requires
        0 <= i < s.len(),
    ensures
        count_rows(s.remove(i), pid, uid, kind) == count_rows(s, pid, uid, kind) - (if row_matches(
            s[i],
            pid,
            uid,
            kind,
        ) {
            1int
        } else {
            0int
        }),
{
    let a = s.subrange(0, i);
    let m = s.subrange(i, i + 1);
    let b = s.subrange(i + 1, s.len() as int);
    assert(s =~= a + m + b);
    assert(s.remove(i) =~= a + b);
    lemma_count_rows_concat(a + m, b, pid, uid, kind);
    lemma_count_rows_concat(a, m, pid, uid, kind);
    lemma_count_rows_concat(a, b, pid, uid, kind);
    assert(m.drop_first() =~= Seq::<PostInteraction>::empty());
    assert(m[0] == s[i]);
    assert(count_rows(Seq::<PostInteraction>::empty(), pid, uid, kind) == 0);
    assert(count_rows(m, pid, uid, kind) == (if row_matches(s[i], pid, uid, kind) {
        1int
    } else {
        0int
    }));
}

pub proof fn lemma_count_rows_push(
    s: Seq<PostInteraction>,
    r: PostInteraction,
    pid: Option<u128>,
    uid: Option<u128>,
    kind: Option<PostInteractionType>,
)
    ensures
        count_rows(s.push(r), pid, uid, kind) == count_rows(s, pid, uid, kind) + (if row_matches(
            r,
            pid,
            uid,
            kind,
        ) {
            1int
        } else {
            0int
        }),
{
    assert(s.push(r) =~= s + seq![r]);
    lemma_count_rows_concat(s, seq![r], pid, uid, kind);
    assert(seq![r].drop_first() =~= Seq::<PostInteraction>::empty());
    assert(seq![r][0] == r);
    assert(count_rows(Seq::<PostInteraction>::empty(), pid, uid, kind) == 0);
}

pub proof fn lemma_count_rows_zero_iff_none(
    s: Seq<PostInteraction>,
    pid: Option<u128>,
    uid: Option<u128>,
    kind: Option<PostInteractionType>,
)
    ensures
        (count_rows(s, pid, uid, kind) == 0) <==> (forall|k: int|
            0 <= k < s.len() ==> !row_matches(#[trigger] s[k], pid, uid, kind)),
    decreases s.len(),
{
    if s.len() > 0 {
        lemma_count_rows_zero_iff_none(s.drop_first(), pid, uid, kind);
        lemma_count_rows_nonneg(s.drop_first(), pid, uid, kind);
        if count_rows(s, pid, uid, kind) == 0 {
            assert forall|k: int| 0 <= k < s.len() implies !row_matches(
                #[trigger] s[k],
                pid,
                uid,
                kind,
            ) by {
                if k > 0 {
                    assert(s[k] == s.drop_first()[k - 1]);
                }
            }
        } else {
            if forall|k: int| 0 <= k < s.len() ==> !row_matches(#[trigger] s[k], pid, uid, kind) {
                assert forall|k: int|
                    0 <= k < s.len() - 1 implies !row_matches(
                    #[trigger] s.drop_first()[k],
                    pid,
                    uid,
                    kind,
                ) by {
                    assert(s.drop_first()[k] == s[k + 1]);
                }
            }
        }
    }
}

/// Index of the active row of this user, post and kind, or the length.
pub open spec fn row_full_matches(
    r: PostInteraction,
    pid: u128,
    uid: u128,
    kind: PostInteractionType,
) -> bool {
    r.post_id == pid && r.user_id == uid && r.kind == kind
}

pub open spec fn row_idx(
    s: Seq<PostInteraction>,
    pid: u128,
    uid: u128,
    kind: PostInteractionType,
) -> int
    decreases s.len(),
{
    if s.len() == 0 {
        0
    } else if row_full_matches(s[0], pid, uid, kind) {
        0
    } else {
        1 + row_idx(s.drop_first(), pid, uid, kind)
    }
}

pub proof fn lemma_row_idx(s: Seq<PostInteraction>, pid: u128, uid: u128, kind: PostInteractionType)
    ensures
        0 <= row_idx(s, pid, uid, kind) <= s.len(),
        row_idx(s, pid, uid, kind) < s.len() ==> row_full_matches(
            s[row_idx(s, pid, uid, kind)],
            pid,
            uid,
            kind,
        ),
        forall|k: int|
            0 <= k < row_idx(s, pid, uid, kind) ==> !row_full_matches(
                #[trigger] s[k],
                pid,
                uid,
                kind,
            ),
    decreases s.len(),
{
    if s.len() > 0 && !row_full_matches(s[0], pid, uid, kind) {
        lemma_row_idx(s.drop_first(), pid, uid, kind);
        assert forall|k: int| 0 <= k < row_idx(s, pid, uid, kind) implies !row_full_matches(
            #[trigger] s[k],
            pid,
            uid,
            kind,
        ) by {
            if k > 0 {
                assert(s[k] == s.drop_first()[k - 1]);
            }
        }
    }
}

pub open spec fn has_row(
    s: Seq<PostInteraction>,
    pid: u128,
    uid: u128,
    kind: PostInteractionType,
) -> bool {
    row_idx(s, pid, uid, kind) < s.len()
}

/// The posts with the like or dislike counter of post `pid` moved by
/// `delta`; everything else untouched.
pub open spec fn with_counter_delta(
    posts: Seq<Post>,
    pid: u128,
    kind: PostInteractionType,
    delta: int,
) -> Seq<Post> {
    posts.map_values(
        |p: Post|
            if p.id == pid {
                match kind {
                    PostInteractionType::Like => Post {
                        likes_count: (p.likes_count + delta) as i64,
                        ..p
                    },
                    PostInteractionType::Dislike => Post {
                        dislikes_count: (p.dislikes_count + delta) as i64,
                        ..p
                    },
                }
            } else {
                p
            },
    )
}

/// What clearing one interaction does to the interaction table.
pub open spec fn spec_clear_ints(
    ints: Seq<PostInteraction>,
    pid: u128,
    uid: u128,
    kind: PostInteractionType,
) -> Seq<PostInteraction> {
    if has_row(ints, pid, uid, kind) {
        ints.remove(row_idx(ints, pid, uid, kind))
    } else {
        ints
    }
}

/// What clearing one interaction does to the posts: the counter falls by one
/// exactly when a row was removed.
pub open spec fn spec_clear_posts(
    posts: Seq<Post>,
    ints: Seq<PostInteraction>,
    pid: u128,
    uid: u128,
    kind: PostInteractionType,
) -> Seq<Post> {
    if has_row(ints, pid, uid, kind) {
        with_counter_delta(posts, pid, kind, -1)
    } else {
        posts
    }
}

/// The whole state change of `set_interaction`: both kinds cleared, then the
/// new row inserted and its counter raised.
pub open spec fn spec_set_interaction(
    posts: Seq<Post>,
    ints: Seq<PostInteraction>,
    pid: u128,
    uid: u128,
    kind: PostInteractionType,
    row: PostInteraction,
) -> (Seq<Post>, Seq<PostInteraction>) {
    let p1 = spec_clear_posts(posts, ints, pid, uid, PostInteractionType::Like);
    let i1 = spec_clear_ints(ints, pid, uid, PostInteractionType::Like);
    let p2 = spec_clear_posts(p1, i1, pid, uid, PostInteractionType::Dislike);
    let i2 = spec_clear_ints(i1, pid, uid, PostInteractionType::Dislike);
    (with_counter_delta(p2, pid, kind, 1), i2.push(row))
}

/// The posts with the view counter of `pid` raised by one (held at the
/// numeric ceiling).
pub open spec fn spec_bump_views(posts: Seq<Post>, pid: u128) -> Seq<Post> {
    posts.map_values(
        |p: Post|
            if p.id == pid && p.views_count < i64::MAX {
                Post { views_count: (p.views_count + 1) as i64, ..p }
            } else {
                p
            },
    )
}

pub struct Store {
    pub users: Vec<User>,
    pub sessions: Vec<Session>,
    pub posts: Vec<Post>,
    pub interactions: Vec<PostInteraction>,
}

pub open spec fn unique_post_ids(posts: Seq<Post>) -> bool {
    forall|i: int, j: int|
        0 <= i < j < posts.len() ==> (#[trigger] posts[i]).id != (#[trigger] posts[j]).id
}

pub open spec fn users_wf(users: Seq<User>) -> bool {
    forall|i: int, j: int|
        0 <= i < j < users.len() ==> (#[trigger] users[i]).id != (#[trigger] users[j]).id
            && users[i].username@ != users[j].username@ && users[i].email@ != users[j].email@
}

pub open spec fn sessions_wf(sessions: Seq<Session>, users: Seq<User>) -> bool {
    &&& forall|i: int, j: int|
        0 <= i < j < sessions.len() ==> (#[trigger] sessions[i]).id != (#[trigger] sessions[j]).id
            && sessions[i].token@ != sessions[j].token@
    &&& forall|i: int|
        0 <= i < sessions.len() ==> spec_find_user(users, (#[trigger] sessions[i]).user_id) is Some
}

/// Shape of the post tree: a parent exactly for replies and reposts, every
/// parent present, and a repost's parent never itself a repost.
pub open spec fn posts_wf(posts: Seq<Post>) -> bool {
    &&& unique_post_ids(posts)
    &&& forall|i: int|
        0 <= i < posts.len() ==> ((#[trigger] posts[i]).parent_post_id is Some <==> posts[i].kind
            != PostType::Normal)
    &&& forall|i: int|
        0 <= i < posts.len() ==> ((#[trigger] posts[i]).parent_post_id is Some ==> spec_find_post(
            posts,
            posts[i].parent_post_id->0,
        ) is Some)
    &&& forall|i: int|
        0 <= i < posts.len() ==> ((#[trigger] posts[i]).kind == PostType::Repost ==> spec_find_post(
            posts,
            posts[i].parent_post_id->0,
        )->0.kind != PostType::Repost)
}

/// Interaction rows: at most one active row per (user, content post), every
/// target an existing non-repost post.
pub open spec fn ints_wf(ints: Seq<PostInteraction>, posts: Seq<Post>) -> bool {
    &&& forall|i: int, j: int|
        0 <= i < j < ints.len() ==> !((#[trigger] ints[i]).post_id == (#[trigger] ints[j]).post_id
            && ints[i].user_id == ints[j].user_id)
    &&& forall|i: int|
        0 <= i < ints.len() ==> spec_find_post(posts, (#[trigger] ints[i]).post_id) is Some
            && spec_find_post(posts, ints[i].post_id)->0.kind != PostType::Repost
}

/// The denormalized like and dislike counters agree with the rows.
pub open spec fn counters_wf(posts: Seq<Post>, ints: Seq<PostInteraction>) -> bool {
    forall|i: int|
        0 <= i < posts.len() ==> (#[trigger] posts[i]).likes_count == count_rows(
            ints,
            Some(posts[i].id),
            None,
            Some(PostInteractionType::Like),
        ) && posts[i].dislikes_count == count_rows(
            ints,
            Some(posts[i].id),
            None,
            Some(PostInteractionType::Dislike),
        )
}

impl Store {
    /// The data-model invariant; every public operation keeps it.
    pub open spec fn wf(self) -> bool {
        &&& users_wf(self.users@)
        &&& sessions_wf(self.sessions@, self.users@)
        &&& posts_wf(self.posts@)
        &&& ints_wf(self.interactions@, self.posts@)
        &&& counters_wf(self.posts@, self.interactions@)
    }

    pub fn new() -> (r: Store)
        ensures
            r.wf(),
            r.users@.len() == 0,
            r.sessions@.len() == 0,
            r.posts@.len() == 0,
            r.interactions@.len() == 0,
    {
        Store { users: Vec::new(), sessions: Vec::new(), posts: Vec::new(), interactions: Vec::new() }
    }

    pub fn find_post(&self, id: u128) -> (r: Option<Post>)
        ensures
            r == spec_find_post(self.posts@, id),
    {
        let mut i: usize = 0;
        while i < self.posts.len()
            invariant
                i <= self.posts@.len(),
                forall|k: int| 0 <= k < i ==> (#[trigger] self.posts@[k]).id != id,
            decreases self.posts@.len() - i,
        {
            if self.posts[i].id == id {
                proof { lemma_post_idx(self.posts@, id); }
                assert(post_idx(self.posts@, id) == i);
                return Some(self.posts[i].clone());
            }
            i = i + 1;
        }
        proof { lemma_post_idx(self.posts@, id); }
        assert(post_idx(self.posts@, id) == self.posts@.len());
        None
    }

    pub fn find_user(&self, id: u128) -> (r: Option<User>)
        ensures
            r == spec_find_user(self.users@, id),
    {
        let mut i: usize = 0;
        while i < self.users.len()
            invariant
                i <= self.users@.len(),
                forall|k: int| 0 <= k < i ==> (#[trigger] self.users@[k]).id != id,
            decreases self.users@.len() - i,
        {
            if self.users[i].id == id {
                proof { lemma_user_idx(self.users@, id); }
                assert(user_idx(self.users@, id) == i);
                return Some(self.users[i].clone());
            }
            i = i + 1;
        }
        proof { lemma_user_idx(self.users@, id); }
        assert(user_idx(self.users@, id) == self.users@.len());
        None
    }

    pub fn find_session(&self, id: u128) -> (r: Option<Session>)
        ensures
            r == spec_find_session(self.sessions@, id),
    {
        let mut i: usize = 0;
        while i < self.sessions.len()
            invariant
                i <= self.sessions@.len(),
                forall|k: int| 0 <= k < i ==> (#[trigger] self.sessions@[k]).id != id,
            decreases self.sessions@.len() - i,
        {
            if self.sessions[i].id == id {
                proof { lemma_session_idx(self.sessions@, id); }
                assert(session_idx(self.sessions@, id) == i);
                return Some(self.sessions[i].clone());
            }
            i = i + 1;
        }
        proof { lemma_session_idx(self.sessions@, id); }
        assert(session_idx(self.sessions@, id) == self.sessions@.len());
        None
    }

    pub fn find_session_by_token(&self, token: &str, now: i64) -> (r: Option<Session>)
        ensures
            r == spec_find_session_by_token(self.sessions@, token@, now),
    {
        let mut i: usize = 0;
        while i < self.sessions.len()
            invariant
                i <= self.sessions@.len(),
                forall|k: int|
                    0 <= k < i ==> !((#[trigger] self.sessions@[k]).token@ == token@
                        && self.sessions@[k].expires_at > now),
            decreases self.sessions@.len() - i,
        {
            if crate::forms::str_eq(self.sessions[i].token.as_str(), token)
                && self.sessions[i].expires_at > now {
                assert(token_matches(self.sessions@[i as int], token@, now));
                proof { lemma_token_session_idx(self.sessions@, token@, now); }
                assert(token_session_idx(self.sessions@, token@, now) == i);
                return Some(self.sessions[i].clone());
            }
            i = i + 1;
        }
        proof { lemma_token_session_idx(self.sessions@, token@, now); }
        assert(token_session_idx(self.sessions@, token@, now) == self.sessions@.len());
        None
    }

    pub fn find_user_by_logon(&self, logon: &str) -> (r: Option<User>)
        ensures
            r == spec_find_user_by_logon(self.users@, logon@),
    {
        let mut i: usize = 0;
        while i < self.users.len()
            invariant
                i <= self.users@.len(),
                forall|k: int| 0 <= k < i ==> !logon_matches(#[trigger] self.users@[k], logon@),
            decreases self.users@.len() - i,
        {
            if crate::forms::str_eq(self.users[i].username.as_str(), logon) || crate::forms::str_eq(
                self.users[i].email.as_str(),
                logon,
            ) {
                assert(logon_matches(self.users@[i as int], logon@));
                proof { lemma_logon_idx(self.users@, logon@); }
                assert(logon_idx(self.users@, logon@) == i);
                return Some(self.users[i].clone());
            }
            i = i + 1;
        }
        proof { lemma_logon_idx(self.users@, logon@); }
        assert(logon_idx(self.users@, logon@) == self.users@.len());
        None
    }

    pub fn find_user_by_id_or_username(&self, id: Option<u128>, name: &str) -> (r: Option<User>)
        ensures
            r == spec_find_user_by_id_or_username(self.users@, id, name@),
    {
        let mut i: usize = 0;
        while i < self.users.len()
            invariant
                i <= self.users@.len(),
                forall|k: int|
                    0 <= k < i ==> !id_or_username_matches(#[trigger] self.users@[k], id, name@),
            decreases self.users@.len() - i,
        {
            let id_hit = match id {
                Option::Some(v) => self.users[i].id == v,
                Option::None => false,
            };
            if id_hit || crate::forms::str_eq(self.users[i].username.as_str(), name) {
                assert(id_or_username_matches(self.users@[i as int], id, name@));
                proof { lemma_id_or_username_idx(self.users@, id, name@); }
                assert(id_or_username_idx(self.users@, id, name@) == i);
                return Some(self.users[i].clone());
            }
            i = i + 1;
        }
        proof { lemma_id_or_username_idx(self.users@, id, name@); }
        assert(id_or_username_idx(self.users@, id, name@) == self.users@.len());
        None
    }

    /// Whether this user has an active row of this kind on this post; feeds
    /// the `auth_user_liked` / `auth_user_disliked` flags.
    pub fn has_interaction(&self, pid: u128, uid: u128, kind: PostInteractionType) -> (r: bool)
        ensures
            r == has_row(self.interactions@, pid, uid, kind),
    {
        let mut i: usize = 0;
        while i < self.interactions.len()
            invariant
                i <= self.interactions@.len(),
                forall|k: int|
                    0 <= k < i ==> !((#[trigger] self.interactions@[k]).post_id == pid
                        && self.interactions@[k].user_id == uid && self.interactions@[k].kind
                        == kind),
            decreases self.interactions@.len() - i,
        {
            if self.interactions[i].post_id == pid && self.interactions[i].user_id == uid
                && self.interactions[i].kind == kind {
                assert(row_full_matches(self.interactions@[i as int], pid, uid, kind));
                proof { lemma_row_idx(self.interactions@, pid, uid, kind); }
                assert(row_idx(self.interactions@, pid, uid, kind) == i);
                return true;
            }
            i = i + 1;
        }
        proof { lemma_row_idx(self.interactions@, pid, uid, kind); }
        assert(row_idx(self.interactions@, pid, uid, kind) == self.interactions@.len());
        false
    }
}


/// Two post tables with the same ids, kinds and parents at every index.
pub open spec fn same_shape(a: Seq<Post>, b: Seq<Post>) -> bool {
    &&& b.len() == a.len()
    &&& forall|k: int|
        0 <= k < a.len() ==> (#[trigger] b[k]).id == (#[trigger] a[k]).id && b[k].kind == a[k].kind
            && b[k].parent_post_id == a[k].parent_post_id
}

pub proof fn lemma_post_idx_same_shape(a: Seq<Post>, b: Seq<Post>, x: u128)
    requires
        same_shape(a, b),
    ensures
        post_idx(b, x) == post_idx(a, x),
    decreases a.len(),
{
    if a.len() > 0 {
        assert(same_shape(a.drop_first(), b.drop_first())) by {
            assert(forall|k: int|
                0 <= k < a.len() - 1 ==> #[trigger] a.drop_first()[k] == a[k + 1]
                    && #[trigger] b.drop_first()[k] == b[k + 1]);
        }
        lemma_post_idx_same_shape(a.drop_first(), b.drop_first(), x);
    }
}

/// Shape-preserving rewrites keep every lookup at the same index, so the
/// tree clauses of the invariant carry over.
pub proof fn lemma_posts_wf_same_shape(a: Seq<Post>, b: Seq<Post>)
    requires
        posts_wf(a),
        same_shape(a, b),
    ensures
        posts_wf(b),
{
    assert forall|i: int, j: int|
        0 <= i < j < b.len() implies (#[trigger] b[i]).id != (#[trigger] b[j]).id by {
        assert(a[i].id == b[i].id && a[j].id == b[j].id);
    }
    assert forall|i: int| 0 <= i < b.len() implies ((#[trigger] b[i]).parent_post_id is Some
        <==> b[i].kind != PostType::Normal) && (b[i].parent_post_id is Some ==> spec_find_post(
        b,
        b[i].parent_post_id->0,
    ) is Some) && (b[i].kind == PostType::Repost ==> spec_find_post(
        b,
        b[i].parent_post_id->0,
    )->0.kind != PostType::Repost) by {
        assert(a[i].parent_post_id == b[i].parent_post_id && a[i].kind == b[i].kind);
        if b[i].parent_post_id is Some {
            lemma_post_idx_same_shape(a, b, b[i].parent_post_id->0);
            lemma_post_idx(a, b[i].parent_post_id->0);
        }
    }
}

pub proof fn lemma_ints_wf_same_shape(
    ints: Seq<PostInteraction>,
    a: Seq<Post>,
    b: Seq<Post>,
)
    requires
        ints_wf(ints, a),
        same_shape(a, b),
    ensures
        ints_wf(ints, b),
{
    assert forall|i: int| 0 <= i < ints.len() implies spec_find_post(
        b,
        (#[trigger] ints[i]).post_id,
    ) is Some && spec_find_post(b, ints[i].post_id)->0.kind != PostType::Repost by {
        lemma_post_idx_same_shape(a, b, ints[i].post_id);
        lemma_post_idx(a, ints[i].post_id);
    }
}

/// The like or dislike counter a kind selects.
pub open spec fn ld_counter(p: Post, kind: PostInteractionType) -> i64 {
    match kind {
        PostInteractionType::Like => p.likes_count,
        PostInteractionType::Dislike => p.dislikes_count,
    }
}

/// Move the like or dislike counter of the post `pid` by one.
fn posts_counter_delta(posts: &mut Vec<Post>, pid: u128, kind: PostInteractionType, add: bool)
    requires
        unique_post_ids(old(posts)@),
        post_idx(old(posts)@, pid) < old(posts)@.len() ==> (if add {
            ld_counter(old(posts)@[post_idx(old(posts)@, pid)], kind) < i64::MAX
        } else {
            ld_counter(old(posts)@[post_idx(old(posts)@, pid)], kind) > i64::MIN
        }),
    ensures
        final(posts)@ == with_counter_delta(old(posts)@, pid, kind, if add {
            1int
        } else {
            -1int
        }),
{
    let ghost orig = posts@;
    let ghost delta: int = if add {
        1int
    } else {
        -1int
    };
    let mut i: usize = 0;
    while i < posts.len()
        invariant
            i <= posts@.len(),
            posts@.len() == orig.len(),
            unique_post_ids(orig),
            delta == (if add {
                1int
            } else {
                -1int
            }),
            post_idx(orig, pid) < orig.len() ==> (if add {
                ld_counter(orig[post_idx(orig, pid)], kind) < i64::MAX
            } else {
                ld_counter(orig[post_idx(orig, pid)], kind) > i64::MIN
            }),
            forall|k: int|
                0 <= k < i ==> #[trigger] posts@[k] == with_counter_delta(orig, pid, kind, delta)[k],
            forall|k: int| i <= k < orig.len() ==> #[trigger] posts@[k] == orig[k],
        decreases posts@.len() - i,
    {
        proof {
            lemma_post_idx(orig, pid);
        }
        if posts[i].id == pid {
            let p = posts[i].clone();
            assert(p == orig[i as int]);
            proof {
                if post_idx(orig, pid) != i {
                    assert(orig[post_idx(orig, pid)].id == pid && orig[i as int].id == pid);
                    assert(false);
                }
            }
            let np = match kind {
                PostInteractionType::Like => Post {
                    likes_count: if add {
                        p.likes_count + 1
                    } else {
                        p.likes_count - 1
                    },
                    ..p
                },
                PostInteractionType::Dislike => Post {
                    dislikes_count: if add {
                        p.dislikes_count + 1
                    } else {
                        p.dislikes_count - 1
                    },
                    ..p
                },
            };
            posts[i] = np;
            assert(posts@[i as int] == np);
            proof {
                let oi = orig[i as int];
                assert(with_counter_delta(orig, pid, kind, delta)[i as int] == (match kind {
                    PostInteractionType::Like => Post {
                        likes_count: (oi.likes_count + delta) as i64,
                        ..oi
                    },
                    PostInteractionType::Dislike => Post {
                        dislikes_count: (oi.dislikes_count + delta) as i64,
                        ..oi
                    },
                }));
            }
            assert(posts@[i as int] == with_counter_delta(orig, pid, kind, delta)[i as int]);
        } else {
            assert(posts@[i as int] == with_counter_delta(orig, pid, kind, delta)[i as int]);
        }
        i = i + 1;
    }
    assert(posts@ =~= with_counter_delta(orig, pid, kind, delta));
}

/// Raise the view counter of the post `pid` by one, held at the ceiling.
fn posts_bump_views(posts: &mut Vec<Post>, pid: u128)
    ensures
        final(posts)@ == spec_bump_views(old(posts)@, pid),
{
    let ghost orig = posts@;
    let mut i: usize = 0;
    while i < posts.len()
        invariant
            i <= posts@.len(),
            posts@.len() == orig.len(),
            forall|k: int|
                0 <= k < i ==> #[trigger] posts@[k] == spec_bump_views(orig, pid)[k],
            forall|k: int| i <= k < orig.len() ==> #[trigger] posts@[k] == orig[k],
        decreases posts@.len() - i,
    {
        if posts[i].id == pid && posts[i].views_count < i64::MAX {
            let p = posts[i].clone();
            let np = Post { views_count: p.views_count + 1, ..p };
            posts[i] = np;
        }
        assert(posts@[i as int] == spec_bump_views(orig, pid)[i as int]);
        i = i + 1;
    }
    assert(posts@ =~= spec_bump_views(orig, pid));
}

pub proof fn lemma_counter_delta_same_shape(
    posts: Seq<Post>,
    pid: u128,
    kind: PostInteractionType,
    delta: int,
)
    ensures
        same_shape(posts, with_counter_delta(posts, pid, kind, delta)),
{
}

pub proof fn lemma_bump_views_same_shape(posts: Seq<Post>, pid: u128)
    ensures
        same_shape(posts, spec_bump_views(posts, pid)),
{
}

/// The pair count splits over the two kinds.
pub proof fn lemma_pair_count_split(s: Seq<PostInteraction>, pid: u128, uid: u128)
    ensures
        count_rows(s, Some(pid), Some(uid), None) == count_rows(
            s,
            Some(pid),
            Some(uid),
            Some(PostInteractionType::Like),
        ) + count_rows(s, Some(pid), Some(uid), Some(PostInteractionType::Dislike)),
    decreases s.len(),
{
    if s.len() > 0 {
        lemma_pair_count_split(s.drop_first(), pid, uid);
    }
}


pub proof fn lemma_has_row_iff(
    s: Seq<PostInteraction>,
    pid: u128,
    uid: u128,
    kind: PostInteractionType,
)
    ensures
        has_row(s, pid, uid, kind) <==> exists|k: int|
            0 <= k < s.len() && row_full_matches(#[trigger] s[k], pid, uid, kind),
{
    lemma_row_idx(s, pid, uid, kind);
    if has_row(s, pid, uid, kind) {
        assert(row_full_matches(s[row_idx(s, pid, uid, kind)], pid, uid, kind));
    }
}

/// After a clear, no active row of any kind is left for the pair that was
/// unique before.
pub proof fn lemma_clear_no_pair_row(
    ints: Seq<PostInteraction>,
    pid: u128,
    uid: u128,
    cleared: PostInteractionType,
    kind: PostInteractionType,
)
    requires
        forall|i: int, j: int|
            0 <= i < j < ints.len() ==> !((#[trigger] ints[i]).post_id
                == (#[trigger] ints[j]).post_id && ints[i].user_id == ints[j].user_id),
        !has_row(ints, pid, uid, kind) || kind == cleared,
    ensures
        !has_row(spec_clear_ints(ints, pid, uid, cleared), pid, uid, kind),
{
    let out = spec_clear_ints(ints, pid, uid, cleared);
    lemma_row_idx(ints, pid, uid, cleared);
    lemma_has_row_iff(ints, pid, uid, kind);
    lemma_has_row_iff(out, pid, uid, kind);
    if has_row(ints, pid, uid, cleared) {
        let idx = row_idx(ints, pid, uid, cleared);
        assert(forall|k: int|
            0 <= k < out.len() ==> #[trigger] out[k] == (if k < idx {
                ints[k]
            } else {
                ints[k + 1]
            }));
        if exists|k: int| 0 <= k < out.len() && row_full_matches(#[trigger] out[k], pid, uid, kind) {
            let k = choose|k: int|
                0 <= k < out.len() && row_full_matches(#[trigger] out[k], pid, uid, kind);
            let ok = if k < idx {
                k
            } else {
                k + 1
            };
            assert(out[k] == ints[ok]);
            assert(ints[ok].post_id == pid && ints[ok].user_id == uid);
            assert(ints[idx].post_id == pid && ints[idx].user_id == uid);
            if ok < idx {
                assert(false);
            } else {
                assert(false);
            }
        }
    }
}

impl Store {
    /// Remove the active row of this kind for this (content post, user)
    /// pair, if there is one, and lower the matching counter exactly when a
    /// row was removed. The second of two back-to-back calls is a no-op.
    pub fn clear_interaction(&mut self, pid: u128, uid: u128, kind: PostInteractionType) -> (removed:
        bool)
        requires
            old(self).wf(),
        ensures
            final(self).wf(),
            removed == has_row(old(self).interactions@, pid, uid, kind),
            final(self).interactions@ == spec_clear_ints(old(self).interactions@, pid, uid, kind),
            final(self).posts@ == spec_clear_posts(
                old(self).posts@,
                old(self).interactions@,
                pid,
                uid,
                kind,
            ),
            final(self).users == old(self).users,
            final(self).sessions == old(self).sessions,
    {
        let ghost ints0 = self.interactions@;
        let ghost posts0 = self.posts@;
        let mut i: usize = 0;
        let mut found: Option<usize> = None;
        while i < self.interactions.len()
            invariant
                i <= self.interactions@.len(),
                self.interactions@ == ints0,
                found is None ==> forall|k: int|
                    0 <= k < i ==> !row_full_matches(#[trigger] ints0[k], pid, uid, kind),
                found is Some ==> found->0 < ints0.len() && found->0 == row_idx(
                    ints0,
                    pid,
                    uid,
                    kind,
                ),
            decreases self.interactions@.len() - i,
        {
            if found.is_none() && self.interactions[i].post_id == pid && self.interactions[i].user_id
                == uid && self.interactions[i].kind == kind {
                proof {
                    lemma_row_idx(ints0, pid, uid, kind);
                }
                assert(row_idx(ints0, pid, uid, kind) == i);
                found = Some(i);
            }
            i = i + 1;
        }
        let idx = match found {
            Option::Some(v) => v,
            Option::None => {
                proof {
                    lemma_row_idx(ints0, pid, uid, kind);
                }
                assert(!has_row(ints0, pid, uid, kind));
                return false;
            },
        };
        let ghost row = ints0[idx as int];
        assert(row_full_matches(row, pid, uid, kind)) by {
            lemma_row_idx(ints0, pid, uid, kind);
        }
        self.interactions.remove(idx);
        // the removed row's target exists and its counter equals a count
        // that includes the row, so the decrement cannot underflow
        proof {
            lemma_post_idx(posts0, pid);
            if post_idx(posts0, pid) < posts0.len() {
                let tp = posts0[post_idx(posts0, pid)];
                lemma_count_rows_nonneg(ints0, Some(pid), None, Some(kind));
                lemma_count_rows_zero_iff_none(ints0, Some(pid), None, Some(kind));
                assert(row_matches(ints0[idx as int], Some(pid), None, Some(kind)));
                assert(count_rows(ints0, Some(pid), None, Some(kind)) != 0);
                assert(ld_counter(tp, kind) > i64::MIN);
            }
        }
        posts_counter_delta(&mut self.posts, pid, kind, false);
        proof {
            self.lemma_clear_wf(posts0, ints0, pid, uid, kind, idx as int);
        }
        true
    }

    proof fn lemma_clear_wf(
        self,
        posts0: Seq<Post>,
        ints0: Seq<PostInteraction>,
        pid: u128,
        uid: u128,
        kind: PostInteractionType,
        idx: int,
    )
        requires
            users_wf(self.users@),
            sessions_wf(self.sessions@, self.users@),
            posts_wf(posts0),
            ints_wf(ints0, posts0),
            counters_wf(posts0, ints0),
            0 <= idx < ints0.len(),
            idx == row_idx(ints0, pid, uid, kind),
            row_full_matches(ints0[idx], pid, uid, kind),
            self.interactions@ == ints0.remove(idx),
            self.posts@ == with_counter_delta(posts0, pid, kind, -1),
        ensures
            self.wf(),
            self.interactions@ == spec_clear_ints(ints0, pid, uid, kind),
            self.posts@ == spec_clear_posts(posts0, ints0, pid, uid, kind),
            has_row(ints0, pid, uid, kind),
    {
        let ints1 = self.interactions@;
        let posts1 = self.posts@;
        lemma_counter_delta_same_shape(posts0, pid, kind, -1);
        lemma_posts_wf_same_shape(posts0, posts1);
        lemma_ints_wf_same_shape(ints0, posts0, posts1);
        // the rows after removal are the rows before, minus the one at idx
        assert(forall|k: int|
            0 <= k < ints1.len() ==> #[trigger] ints1[k] == (if k < idx {
                ints0[k]
            } else {
                ints0[k + 1]
            }));
        assert forall|i: int, j: int|
            0 <= i < j < ints1.len() implies !((#[trigger] ints1[i]).post_id
            == (#[trigger] ints1[j]).post_id && ints1[i].user_id == ints1[j].user_id) by {
            let oi = if i < idx {
                i
            } else {
                i + 1
            };
            let oj = if j < idx {
                j
            } else {
                j + 1
            };
            assert(ints1[i] == ints0[oi] && ints1[j] == ints0[oj]);
        }
        assert forall|i: int| 0 <= i < ints1.len() implies spec_find_post(
            posts1,
            (#[trigger] ints1[i]).post_id,
        ) is Some && spec_find_post(posts1, ints1[i].post_id)->0.kind != PostType::Repost by {
            let oi = if i < idx {
                i
            } else {
                i + 1
            };
            assert(ints1[i] == ints0[oi]);
        }
        // counters: each post's count moves by the removed row's own match
        assert forall|i: int| 0 <= i < posts1.len() implies (#[trigger] posts1[i]).likes_count
            == count_rows(ints1, Some(posts1[i].id), None, Some(PostInteractionType::Like))
            && posts1[i].dislikes_count == count_rows(
            ints1,
            Some(posts1[i].id),
            None,
            Some(PostInteractionType::Dislike),
        ) by {
            assert(posts1[i] == with_counter_delta(posts0, pid, kind, -1)[i]);
            assert(posts1[i].id == posts0[i].id);
            assert(posts0[i].likes_count == count_rows(ints0, Some(posts0[i].id), None, Some(
                PostInteractionType::Like,
            )) && posts0[i].dislikes_count == count_rows(ints0, Some(posts0[i].id), None, Some(
                PostInteractionType::Dislike,
            )));
            lemma_count_rows_remove(ints0, idx, Some(posts0[i].id), None, Some(
                PostInteractionType::Like,
            ));
            lemma_count_rows_remove(ints0, idx, Some(posts0[i].id), None, Some(
                PostInteractionType::Dislike,
            ));
            if posts0[i].id == pid {
                lemma_post_idx(posts0, pid);
                if post_idx(posts0, pid) != i {
                    assert(posts0[post_idx(posts0, pid)].id == pid);
                    assert(false);
                }
                lemma_count_rows_zero_iff_none(ints0, Some(pid), None, Some(kind));
                lemma_count_rows_nonneg(ints0, Some(pid), None, Some(kind));
                assert(row_matches(ints0[idx], Some(pid), None, Some(kind)));
                assert(count_rows(ints0, Some(pid), None, Some(kind)) >= 1);
            }
        }
        lemma_row_idx(ints0, pid, uid, kind);
    }

    /// The interaction ledger's write path: clear any Like, clear any
    /// Dislike, then insert one row of `kind` and raise its counter — so at
    /// most one active row per (content post, user) pair ever exists.
    pub fn set_interaction(
        &mut self,
        pid: u128,
        uid: u128,
        kind: PostInteractionType,
        row_id: u128,
        now: i64,
    )
        requires
            old(self).wf(),
            spec_find_post(old(self).posts@, pid) is Some,
            spec_find_post(old(self).posts@, pid)->0.kind != PostType::Repost,
        ensures
            final(self).wf(),
            final(self).users == old(self).users,
            final(self).sessions == old(self).sessions,
            old(self).interactions@.len() < i64::MAX ==> {
                let st = spec_set_interaction(
                    old(self).posts@,
                    old(self).interactions@,
                    pid,
                    uid,
                    kind,
                    PostInteraction {
                        id: row_id,
                        post_id: pid,
                        user_id: uid,
                        kind,
                        created_at: now,
                        updated_at: now,
                    },
                );
                final(self).posts@ == st.0 && final(self).interactions@ == st.1
            },
            old(self).interactions@.len() >= i64::MAX ==> final(self).posts@ == old(self).posts@
                && final(self).interactions@ == old(self).interactions@,
    {
        if self.interactions.len() as u64 >= 0x7fff_ffff_ffff_ffffu64 {
            return ;
        }
        let ghost posts0 = self.posts@;
        let ghost ints0 = self.interactions@;
        self.clear_interaction(pid, uid, PostInteractionType::Like);
        self.clear_interaction(pid, uid, PostInteractionType::Dislike);
        let ghost posts2 = self.posts@;
        let ghost ints2 = self.interactions@;
        let row = PostInteraction {
            id: row_id,
            post_id: pid,
            user_id: uid,
            kind,
            created_at: now,
            updated_at: now,
        };
        self.interactions.push(row);
        proof {
            // the counter to raise equals a count bounded by the table size
            let posts1 = spec_clear_posts(posts0, ints0, pid, uid, PostInteractionType::Like);
            let ints1 = spec_clear_ints(ints0, pid, uid, PostInteractionType::Like);
            lemma_counter_delta_same_shape(posts0, pid, PostInteractionType::Like, -1);
            assert(same_shape(posts0, posts1));
            lemma_counter_delta_same_shape(posts1, pid, PostInteractionType::Dislike, -1);
            assert(same_shape(posts1, posts2));
            assert(same_shape(posts0, posts2));
            lemma_post_idx(posts2, pid);
            lemma_post_idx_same_shape(posts0, posts2, pid);
            lemma_post_idx(posts0, pid);
            assert(post_idx(posts2, pid) < posts2.len());
            let ti = post_idx(posts2, pid);
            assert(posts2[ti].id == pid);
            assert(posts2[ti].likes_count == count_rows(ints2, Some(posts2[ti].id), None, Some(
                PostInteractionType::Like,
            )) && posts2[ti].dislikes_count == count_rows(ints2, Some(posts2[ti].id), None, Some(
                PostInteractionType::Dislike,
            )));
            lemma_count_rows_nonneg(ints2, Some(pid), None, Some(PostInteractionType::Like));
            lemma_count_rows_nonneg(ints2, Some(pid), None, Some(PostInteractionType::Dislike));
            let intsA = spec_clear_ints(ints0, pid, uid, PostInteractionType::Like);
            lemma_row_idx(ints0, pid, uid, PostInteractionType::Like);
            lemma_row_idx(intsA, pid, uid, PostInteractionType::Dislike);
            if has_row(ints0, pid, uid, PostInteractionType::Like) {
                assert(intsA.len() == ints0.len() - 1);
            }
            if has_row(intsA, pid, uid, PostInteractionType::Dislike) {
                assert(ints2.len() == intsA.len() - 1);
            }
            assert(ints2.len() <= ints0.len());
            assert(ld_counter(posts2[ti], kind) < i64::MAX);
            lemma_clear_no_pair_row(
                ints0,
                pid,
                uid,
                PostInteractionType::Like,
                PostInteractionType::Like,
            );
            lemma_clear_no_pair_row(
                intsA,
                pid,
                uid,
                PostInteractionType::Dislike,
                PostInteractionType::Like,
            );
            lemma_clear_no_pair_row(
                intsA,
                pid,
                uid,
                PostInteractionType::Dislike,
                PostInteractionType::Dislike,
            );
        }
        posts_counter_delta(&mut self.posts, pid, kind, true);
        proof {
            self.lemma_set_wf(posts0, ints0, posts2, ints2, pid, uid, kind, row);
        }
    }

    proof fn lemma_set_wf(
        self,
        posts0: Seq<Post>,
        ints0: Seq<PostInteraction>,
        posts2: Seq<Post>,
        ints2: Seq<PostInteraction>,
        pid: u128,
        uid: u128,
        kind: PostInteractionType,
        row: PostInteraction,
    )
        requires
            users_wf(self.users@),
            sessions_wf(self.sessions@, self.users@),
            posts_wf(posts2),
            ints_wf(ints2, posts2),
            counters_wf(posts2, ints2),
            spec_find_post(posts0, pid) is Some,
            spec_find_post(posts0, pid)->0.kind != PostType::Repost,
            same_shape(posts0, posts2),
            !has_row(ints2, pid, uid, PostInteractionType::Like),
            !has_row(ints2, pid, uid, PostInteractionType::Dislike),
            row.post_id == pid && row.user_id == uid && row.kind == kind,
            post_idx(posts2, pid) < posts2.len(),
            ld_counter(posts2[post_idx(posts2, pid)], kind) < i64::MAX,
            self.posts@ == with_counter_delta(posts2, pid, kind, 1),
            self.interactions@ == ints2.push(row),
        ensures
            self.wf(),
    {
        let posts3 = self.posts@;
        let ints3 = self.interactions@;
        lemma_counter_delta_same_shape(posts2, pid, kind, 1);
        lemma_posts_wf_same_shape(posts2, posts3);
        lemma_ints_wf_same_shape(ints2, posts2, posts3);
        lemma_row_idx(ints2, pid, uid, PostInteractionType::Like);
        lemma_row_idx(ints2, pid, uid, PostInteractionType::Dislike);
        // no active row for the pair is left, so the pushed row keeps the
        // pair unique
        assert forall|i: int, j: int|
            0 <= i < j < ints3.len() implies !((#[trigger] ints3[i]).post_id
            == (#[trigger] ints3[j]).post_id && ints3[i].user_id == ints3[j].user_id) by {
            if j == ints3.len() - 1 {
                assert(ints3[i] == ints2[i]);
                if ints2[i].post_id == pid && ints2[i].user_id == uid {
                    assert(row_full_matches(ints2[i], pid, uid, ints2[i].kind));
                    if ints2[i].kind == PostInteractionType::Like {
                        assert(false);
                    } else {
                        assert(false);
                    }
                }
            } else {
                assert(ints3[i] == ints2[i] && ints3[j] == ints2[j]);
            }
        }
        assert forall|i: int| 0 <= i < ints3.len() implies spec_find_post(
            posts3,
            (#[trigger] ints3[i]).post_id,
        ) is Some && spec_find_post(posts3, ints3[i].post_id)->0.kind != PostType::Repost by {
            if i < ints3.len() - 1 {
                assert(ints3[i] == ints2[i]);
            } else {
                lemma_post_idx_same_shape(posts2, posts3, pid);
                lemma_post_idx_same_shape(posts0, posts2, pid);
                lemma_post_idx(posts0, pid);
                lemma_post_idx(posts3, pid);
            }
        }
        assert forall|i: int| 0 <= i < posts3.len() implies (#[trigger] posts3[i]).likes_count
            == count_rows(ints3, Some(posts3[i].id), None, Some(PostInteractionType::Like))
            && posts3[i].dislikes_count == count_rows(
            ints3,
            Some(posts3[i].id),
            None,
            Some(PostInteractionType::Dislike),
        ) by {
            assert(posts3[i] == with_counter_delta(posts2, pid, kind, 1)[i]);
            assert(posts3[i].id == posts2[i].id);
            if posts2[i].id == pid {
                lemma_post_idx(posts2, pid);
                if post_idx(posts2, pid) != i {
                    assert(posts2[post_idx(posts2, pid)].id == pid);
                    assert(false);
                }
                assert(ld_counter(posts2[i], kind) < i64::MAX);
            }
            assert(posts2[i].likes_count == count_rows(ints2, Some(posts2[i].id), None, Some(
                PostInteractionType::Like,
            )) && posts2[i].dislikes_count == count_rows(ints2, Some(posts2[i].id), None, Some(
                PostInteractionType::Dislike,
            )));
            lemma_count_rows_push(ints2, row, Some(posts2[i].id), None, Some(
                PostInteractionType::Like,
            ));
            lemma_count_rows_push(ints2, row, Some(posts2[i].id), None, Some(
                PostInteractionType::Dislike,
            ));
            if posts2[i].id == pid {
                lemma_post_idx(posts2, pid);
                if post_idx(posts2, pid) != i {
                    assert(posts2[post_idx(posts2, pid)].id == pid);
                    assert(false);
                }
            }
        }
    }

    /// Record one view of the content post `pid`: exactly one increment per
    /// resolved fetch, not deduplicated by viewer.
    pub fn record_view(&mut self, pid: u128)
        requires
            old(self).wf(),
        ensures
            final(self).wf(),
            final(self).posts@ == spec_bump_views(old(self).posts@, pid),
            final(self).interactions == old(self).interactions,
            final(self).users == old(self).users,
            final(self).sessions == old(self).sessions,
    {
        let ghost posts0 = self.posts@;
        posts_bump_views(&mut self.posts, pid);
        proof {
            lemma_bump_views_same_shape(posts0, pid);
            lemma_posts_wf_same_shape(posts0, self.posts@);
            lemma_ints_wf_same_shape(self.interactions@, posts0, self.posts@);
            assert forall|i: int|
                0 <= i < self.posts@.len() implies (#[trigger] self.posts@[i]).likes_count
                == count_rows(
                self.interactions@,
                Some(self.posts@[i].id),
                None,
                Some(PostInteractionType::Like),
            ) && self.posts@[i].dislikes_count == count_rows(
                self.interactions@,
                Some(self.posts@[i].id),
                None,
                Some(PostInteractionType::Dislike),
            ) by {
                assert(self.posts@[i].likes_count == posts0[i].likes_count
                    && self.posts@[i].dislikes_count == posts0[i].dislikes_count
                    && self.posts@[i].id == posts0[i].id);
            }
        }
    }
}



pub proof fn lemma_user_idx_push(users: Seq<User>, u: User, x: u128)
    requires
        user_idx(users, x) < users.len(),
    ensures
        user_idx(users.push(u), x) == user_idx(users, x),
        users.push(u)[user_idx(users, x)] == users[user_idx(users, x)],
    decreases users.len(),
{
    assert(users.push(u)[0] == users[0]);
    assert forall|k: int| 0 <= k < users.len() implies users.push(u)[k] == users[k] by {}
    if users.len() > 0 && users[0].id != x {
        lemma_user_idx_push(users.drop_first(), u, x);
        assert(users.push(u).drop_first() =~= users.drop_first().push(u));
    }
    lemma_user_idx(users, x);
}

pub proof fn lemma_post_idx_push(posts: Seq<Post>, p: Post, x: u128)
    requires
        post_idx(posts, x) < posts.len(),
    ensures
        post_idx(posts.push(p), x) == post_idx(posts, x),
        posts.push(p)[post_idx(posts, x)] == posts[post_idx(posts, x)],
    decreases posts.len(),
{
    assert(posts.push(p)[0] == posts[0]);
    assert forall|k: int| 0 <= k < posts.len() implies posts.push(p)[k] == posts[k] by {}
    if posts.len() > 0 && posts[0].id != x {
        lemma_post_idx_push(posts.drop_first(), p, x);
        assert(posts.push(p).drop_first() =~= posts.drop_first().push(p));
    }
    lemma_post_idx(posts, x);
}

/// Two user tables with the same ids at every index.
pub open spec fn same_user_ids(a: Seq<User>, b: Seq<User>) -> bool {
    b.len() == a.len() && forall|k: int| 0 <= k < a.len() ==> (#[trigger] b[k]).id == a[k].id
}

pub proof fn lemma_user_idx_same_ids(a: Seq<User>, b: Seq<User>, x: u128)
    requires
        same_user_ids(a, b),
    ensures
        user_idx(b, x) == user_idx(a, x),
    decreases a.len(),
{
    if a.len() > 0 {
        assert(same_user_ids(a.drop_first(), b.drop_first())) by {
            assert(forall|k: int|
                0 <= k < a.len() - 1 ==> #[trigger] a.drop_first()[k] == a[k + 1]
                    && #[trigger] b.drop_first()[k] == b[k + 1]);
        }
        lemma_user_idx_same_ids(a.drop_first(), b.drop_first(), x);
    }
}

impl Store {
    /// Insert a user row; refused (and nothing changes) when the id, the
    /// username or the email is already taken.
    pub fn insert_user(&mut self, user: User) -> (ok: bool)
        requires
            old(self).wf(),
        ensures
            final(self).wf(),
            ok == (forall|k: int|
                0 <= k < old(self).users@.len() ==> (#[trigger] old(self).users@[k]).id != user.id
                    && old(self).users@[k].username@ != user.username@
                    && old(self).users@[k].email@ != user.email@),
            ok ==> final(self).users@ == old(self).users@.push(user),
            !ok ==> final(self).users@ == old(self).users@,
            final(self).sessions == old(self).sessions,
            final(self).posts == old(self).posts,
            final(self).interactions == old(self).interactions,
    {
        let ghost users0 = self.users@;
        let mut i: usize = 0;
        while i < self.users.len()
            invariant
                old(self).wf(),
                i <= users0.len(),
                *self == *old(self),
                self.users@ == users0,
                forall|k: int|
                    0 <= k < i ==> (#[trigger] users0[k]).id != user.id && users0[k].username@
                        != user.username@ && users0[k].email@ != user.email@,
            decreases users0.len() - i,
        {
            if self.users[i].id == user.id || crate::forms::str_eq(
                self.users[i].username.as_str(),
                user.username.as_str(),
            ) || crate::forms::str_eq(self.users[i].email.as_str(), user.email.as_str()) {
                assert(!((#[trigger] users0[i as int]).id != user.id && users0[i as int].username@
                    != user.username@ && users0[i as int].email@ != user.email@));
                return false;
            }
            i = i + 1;
        }
        self.users.push(user);
        proof {
            let users1 = self.users@;
            assert(forall|k: int| 0 <= k < users0.len() ==> #[trigger] users1[k] == users0[k]);
            assert forall|i2: int|
                0 <= i2 < self.sessions@.len() implies spec_find_user(
                users1,
                (#[trigger] self.sessions@[i2]).user_id,
            ) is Some by {
                lemma_user_idx(users0, self.sessions@[i2].user_id);
                lemma_user_idx_push(users0, user, self.sessions@[i2].user_id);
            }
        }
        true
    }

    /// Insert a session row; refused when the id or token is already taken
    /// or the owning user does not exist.
    pub fn insert_session(&mut self, session: Session) -> (ok: bool)
        requires
            old(self).wf(),
        ensures
            final(self).wf(),
            ok == ((forall|k: int|
                0 <= k < old(self).sessions@.len() ==> (#[trigger] old(self).sessions@[k]).id
                    != session.id && old(self).sessions@[k].token@ != session.token@)
                && spec_find_user(old(self).users@, session.user_id) is Some),
            ok ==> final(self).sessions@ == old(self).sessions@.push(session),
            !ok ==> final(self).sessions@ == old(self).sessions@,
            final(self).users == old(self).users,
            final(self).posts == old(self).posts,
            final(self).interactions == old(self).interactions,
    {
        let ghost sessions0 = self.sessions@;
        match self.find_user(session.user_id) {
            Option::Some(_) => (),
            Option::None => {
                return false;
            },
        }
        let mut i: usize = 0;
        while i < self.sessions.len()
            invariant
                old(self).wf(),
                i <= sessions0.len(),
                *self == *old(self),
                self.sessions@ == sessions0,
                spec_find_user(self.users@, session.user_id) is Some,
                forall|k: int|
                    0 <= k < i ==> (#[trigger] sessions0[k]).id != session.id
                        && sessions0[k].token@ != session.token@,
            decreases sessions0.len() - i,
        {
            if self.sessions[i].id == session.id || crate::forms::str_eq(
                self.sessions[i].token.as_str(),
                session.token.as_str(),
            ) {
                assert(!((#[trigger] sessions0[i as int]).id != session.id && sessions0[i as int].token@
                    != session.token@));
                return false;
            }
            i = i + 1;
        }
        self.sessions.push(session);
        proof {
            assert(forall|k: int|
                0 <= k < sessions0.len() ==> #[trigger] self.sessions@[k] == sessions0[k]);
            assert(self.sessions@[sessions0.len() as int] == session);
        }
        true
    }

    /// Insert a post row; refused when the id is taken or the parent shape
    /// is wrong: a parent exactly for replies and reposts, the parent
    /// present, a repost's parent not a repost, and the like and dislike
    /// counters zero.
    pub fn insert_post(&mut self, post: Post) -> (ok: bool)
        requires
            old(self).wf(),
        ensures
            final(self).wf(),
            ok == (spec_find_post(old(self).posts@, post.id) is None && (post.parent_post_id is Some
                <==> post.kind != PostType::Normal) && (post.parent_post_id is Some
                ==> spec_find_post(old(self).posts@, post.parent_post_id->0) is Some) && (post.kind
                == PostType::Repost ==> spec_find_post(
                old(self).posts@,
                post.parent_post_id->0,
            )->0.kind != PostType::Repost) && post.likes_count == 0 && post.dislikes_count == 0),
            ok ==> final(self).posts@ == old(self).posts@.push(post),
            !ok ==> final(self).posts@ == old(self).posts@,
            final(self).users == old(self).users,
            final(self).sessions == old(self).sessions,
            final(self).interactions == old(self).interactions,
    {
        let ghost posts0 = self.posts@;
        if self.find_post(post.id).is_some() {
            return false;
        }
        let shape_ok = match (post.kind, &post.parent_post_id) {
            (PostType::Normal, Option::None) => true,
            (PostType::Reply, Option::Some(_)) => true,
            (PostType::Repost, Option::Some(_)) => true,
            _ => false,
        };
        if !shape_ok {
            return false;
        }
        match &post.parent_post_id {
            Option::Some(parent_id) => {
                match self.find_post(*parent_id) {
                    Option::Some(parent) => {
                        if post.kind == PostType::Repost && parent.kind == PostType::Repost {
                            return false;
                        }
                    },
                    Option::None => {
                        return false;
                    },
                }
            },
            Option::None => (),
        }
        if !(post.likes_count == 0 && post.dislikes_count == 0) {
            return false;
        }
        self.posts.push(post);
        proof {
            self.lemma_insert_post_wf(posts0, post);
        }
        true
    }

    proof fn lemma_insert_post_wf(self, posts0: Seq<Post>, post: Post)
        requires
            users_wf(self.users@),
            sessions_wf(self.sessions@, self.users@),
            posts_wf(posts0),
            ints_wf(self.interactions@, posts0),
            counters_wf(posts0, self.interactions@),
            spec_find_post(posts0, post.id) is None,
            post.parent_post_id is Some <==> post.kind != PostType::Normal,
            post.parent_post_id is Some ==> spec_find_post(posts0, post.parent_post_id->0) is Some,
            post.kind == PostType::Repost ==> spec_find_post(
                posts0,
                post.parent_post_id->0,
            )->0.kind != PostType::Repost,
            post.likes_count == 0,
            post.dislikes_count == 0,
            self.posts@ == posts0.push(post),
        ensures
            self.wf(),
    {
        let posts1 = self.posts@;
        let ints = self.interactions@;
        let n = posts0.len() as int;
        lemma_post_idx(posts0, post.id);
        assert(forall|k: int| 0 <= k < n ==> #[trigger] posts1[k] == posts0[k]);
        // ids stay unique: the new id was not present
        assert forall|i: int, j: int|
            0 <= i < j < posts1.len() implies (#[trigger] posts1[i]).id
            != (#[trigger] posts1[j]).id by {
            if j == n {
                assert(posts1[i] == posts0[i]);
                if posts0[i].id == post.id {
                    lemma_post_idx(posts0, post.id);
                    assert(false);
                }
            }
        }
        // parent lookups keep their results under a push
        assert forall|i: int| 0 <= i < posts1.len() implies ((#[trigger] posts1[i]).parent_post_id
            is Some <==> posts1[i].kind != PostType::Normal) && (posts1[i].parent_post_id is Some
            ==> spec_find_post(posts1, posts1[i].parent_post_id->0) is Some) && (posts1[i].kind
            == PostType::Repost ==> spec_find_post(posts1, posts1[i].parent_post_id->0)->0.kind
            != PostType::Repost) by {
            let pp = posts1[i].parent_post_id;
            if pp is Some {
                if i < n {
                    assert(posts1[i] == posts0[i]);
                } else {
                }
                lemma_post_idx(posts0, pp->0);
                lemma_post_idx_push(posts0, post, pp->0);
            }
        }
        assert forall|i: int| 0 <= i < ints.len() implies spec_find_post(
            posts1,
            (#[trigger] ints[i]).post_id,
        ) is Some && spec_find_post(posts1, ints[i].post_id)->0.kind != PostType::Repost by {
            lemma_post_idx(posts0, ints[i].post_id);
            lemma_post_idx_push(posts0, post, ints[i].post_id);
        }
        // no row targets the fresh id, so its zero counters agree
        lemma_count_rows_zero_iff_none(ints, Some(post.id), None, Some(PostInteractionType::Like));
        lemma_count_rows_zero_iff_none(
            ints,
            Some(post.id),
            None,
            Some(PostInteractionType::Dislike),
        );
        assert forall|k: int| 0 <= k < ints.len() implies !row_matches(
            #[trigger] ints[k],
            Some(post.id),
            None,
            Some(PostInteractionType::Like),
        ) && !row_matches(ints[k], Some(post.id), None, Some(PostInteractionType::Dislike)) by {
            if ints[k].post_id == post.id {
                lemma_post_idx(posts0, post.id);
                assert(spec_find_post(posts0, ints[k].post_id) is Some);
                assert(false);
            }
        }
        assert forall|i: int| 0 <= i < posts1.len() implies (#[trigger] posts1[i]).likes_count
            == count_rows(ints, Some(posts1[i].id), None, Some(PostInteractionType::Like))
            && posts1[i].dislikes_count == count_rows(
            ints,
            Some(posts1[i].id),
            None,
            Some(PostInteractionType::Dislike),
        ) by {
            if i < n {
                assert(posts1[i] == posts0[i]);
            }
        }
    }

    /// Rewrite the text of the post `id`, stamping the update time; its
    /// reposts carry a copy of the text, so they are rewritten with it,
    /// while replies keep their own text.
    pub fn update_post_texts(&mut self, id: u128, text: &str, now: i64)
        requires
            old(self).wf(),
        ensures
            final(self).wf(),
            final(self).posts@.len() == old(self).posts@.len(),
            forall|k: int|
                0 <= k < old(self).posts@.len() ==> (if (#[trigger] old(self).posts@[k]).id == id
                    || (old(self).posts@[k].parent_post_id == Some(id) && old(self).posts@[k].kind
                    == PostType::Repost) {
                    text_updated(old(self).posts@[k], final(self).posts@[k], text@, now)
                } else {
                    final(self).posts@[k] == old(self).posts@[k]
                }),
            final(self).users == old(self).users,
            final(self).sessions == old(self).sessions,
            final(self).interactions == old(self).interactions,
    {
        let ghost posts0 = self.posts@;
        let mut i: usize = 0;
        while i < self.posts.len()
            invariant
                i <= self.posts@.len(),
                self.posts@.len() == posts0.len(),
                self.users == old(self).users,
                self.sessions == old(self).sessions,
                self.interactions == old(self).interactions,
                forall|k: int|
                    0 <= k < i ==> (if (#[trigger] posts0[k]).id == id || (posts0[k].parent_post_id
                        == Some(id) && posts0[k].kind == PostType::Repost) {
                        text_updated(posts0[k], self.posts@[k], text@, now)
                    } else {
                        self.posts@[k] == posts0[k]
                    }),
                forall|k: int| i <= k < posts0.len() ==> #[trigger] self.posts@[k] == posts0[k],
            decreases self.posts@.len() - i,
        {
            let hit = self.posts[i].id == id || (self.posts[i].kind == PostType::Repost && (
            match &self.posts[i].parent_post_id {
                Option::Some(v) => *v == id,
                Option::None => false,
            }));
            if hit {
                let p = self.posts[i].clone();
                let np = Post { text: text.to_owned(), updated_at: now, ..p };
                assert(np.text@ == text@);
                self.posts[i] = np;
                assert(text_updated(posts0[i as int], self.posts@[i as int], text@, now));
            }
            i = i + 1;
        }
        proof {
            assert(same_shape(posts0, self.posts@)) by {
                assert forall|k: int|
                    0 <= k < posts0.len() implies (#[trigger] self.posts@[k]).id == (
                #[trigger] posts0[k]).id && self.posts@[k].kind == posts0[k].kind
                    && self.posts@[k].parent_post_id == posts0[k].parent_post_id by {
                    if posts0[k].id == id || (posts0[k].parent_post_id == Some(id)
                        && posts0[k].kind == PostType::Repost) {
                        assert(text_updated(posts0[k], self.posts@[k], text@, now));
                    }
                }
            }
            let posts1 = self.posts@;
            lemma_posts_wf_same_shape(posts0, posts1);
            lemma_ints_wf_same_shape(self.interactions@, posts0, posts1);
            assert forall|i2: int|
                0 <= i2 < posts1.len() implies (#[trigger] posts1[i2]).likes_count == count_rows(
                self.interactions@,
                Some(posts1[i2].id),
                None,
                Some(PostInteractionType::Like),
            ) && posts1[i2].dislikes_count == count_rows(
                self.interactions@,
                Some(posts1[i2].id),
                None,
                Some(PostInteractionType::Dislike),
            ) by {
                if posts0[i2].id == id || (posts0[i2].parent_post_id == Some(id) && posts0[i2].kind
                    == PostType::Repost) {
                    assert(text_updated(posts0[i2], posts1[i2], text@, now));
                }
                assert(posts1[i2].likes_count == posts0[i2].likes_count && posts1[i2].dislikes_count
                    == posts0[i2].dislikes_count && posts1[i2].id == posts0[i2].id);
            }
        }
    }

    /// Set the expiry of the session `id` to `now`: revocation.
    pub fn expire_session(&mut self, id: u128, now: i64)
        requires
            old(self).wf(),
        ensures
            final(self).wf(),
            final(self).sessions@ == spec_expire_session(old(self).sessions@, id, now),
            final(self).users == old(self).users,
            final(self).posts == old(self).posts,
            final(self).interactions == old(self).interactions,
    {
        let ghost sessions0 = self.sessions@;
        let mut i: usize = 0;
        while i < self.sessions.len()
            invariant
                i <= self.sessions@.len(),
                self.sessions@.len() == sessions0.len(),
                self.users == old(self).users,
                self.posts == old(self).posts,
                self.interactions == old(self).interactions,
                forall|k: int|
                    0 <= k < i ==> #[trigger] self.sessions@[k] == spec_expire_session(
                        sessions0,
                        id,
                        now,
                    )[k],
                forall|k: int|
                    i <= k < sessions0.len() ==> #[trigger] self.sessions@[k] == sessions0[k],
            decreases self.sessions@.len() - i,
        {
            if self.sessions[i].id == id {
                let p = self.sessions[i].clone();
                let np = Session { expires_at: now, ..p };
                self.sessions[i] = np;
            }
            assert(self.sessions@[i as int] == spec_expire_session(sessions0, id, now)[i as int]);
            i = i + 1;
        }
        assert(self.sessions@ =~= spec_expire_session(sessions0, id, now));
        proof {
            let s1 = self.sessions@;
            assert forall|i2: int, j2: int|
                0 <= i2 < j2 < s1.len() implies (#[trigger] s1[i2]).id != (#[trigger] s1[j2]).id
                && s1[i2].token@ != s1[j2].token@ by {
                assert(s1[i2].id == sessions0[i2].id && s1[i2].token@ == sessions0[i2].token@);
                assert(s1[j2].id == sessions0[j2].id && s1[j2].token@ == sessions0[j2].token@);
            }
            assert forall|i2: int| 0 <= i2 < s1.len() implies spec_find_user(
                self.users@,
                (#[trigger] s1[i2]).user_id,
            ) is Some by {
                assert(s1[i2].user_id == sessions0[i2].user_id);
            }
        }
    }

    /// Replace the user row `id` by `new`, which carries the same id.
    /// Refused when another user already holds the new username or email.
    pub fn update_user(&mut self, id: u128, new: User) -> (ok: bool)
        requires
            old(self).wf(),
            new.id == id,
        ensures
            final(self).wf(),
            ok == (forall|k: int|
                0 <= k < old(self).users@.len() ==> ((#[trigger] old(self).users@[k]).id != id
                    ==> old(self).users@[k].username@ != new.username@ && old(self).users@[k].email@
                    != new.email@)),
            ok ==> final(self).users@ == spec_update_user(old(self).users@, id, new),
            !ok ==> final(self).users@ == old(self).users@,
            final(self).sessions == old(self).sessions,
            final(self).posts == old(self).posts,
            final(self).interactions == old(self).interactions,
    {
        let ghost users0 = self.users@;
        let mut i: usize = 0;
        while i < self.users.len()
            invariant
                old(self).wf(),
                i <= users0.len(),
                *self == *old(self),
                self.users@ == users0,
                new.id == id,
                forall|k: int|
                    0 <= k < i ==> ((#[trigger] users0[k]).id != id ==> users0[k].username@
                        != new.username@ && users0[k].email@ != new.email@),
            decreases users0.len() - i,
        {
            if self.users[i].id != id && (crate::forms::str_eq(
                self.users[i].username.as_str(),
                new.username.as_str(),
            ) || crate::forms::str_eq(self.users[i].email.as_str(), new.email.as_str())) {
                assert(!((#[trigger] users0[i as int]).id != id ==> users0[i as int].username@
                    != new.username@ && users0[i as int].email@ != new.email@));
                return false;
            }
            i = i + 1;
        }
        let mut j: usize = 0;
        while j < self.users.len()
            invariant
                j <= self.users@.len(),
                self.users@.len() == users0.len(),
                self.sessions == old(self).sessions,
                self.posts == old(self).posts,
                self.interactions == old(self).interactions,
                new.id == id,
                forall|k: int|
                    0 <= k < j ==> #[trigger] self.users@[k] == spec_update_user(
                        users0,
                        id,
                        new,
                    )[k],
                forall|k: int| j <= k < users0.len() ==> #[trigger] self.users@[k] == users0[k],
            decreases self.users@.len() - j,
        {
            if self.users[j].id == id {
                self.users[j] = new.clone();
            }
            assert(self.users@[j as int] == spec_update_user(users0, id, new)[j as int]);
            j = j + 1;
        }
        assert(self.users@ =~= spec_update_user(users0, id, new));
        proof {
            let users1 = self.users@;
            assert forall|i2: int, j2: int|
                0 <= i2 < j2 < users1.len() implies (#[trigger] users1[i2]).id
                != (#[trigger] users1[j2]).id && users1[i2].username@ != users1[j2].username@
                && users1[i2].email@ != users1[j2].email@ by {
                assert(users1[i2].id == users0[i2].id && users1[j2].id == users0[j2].id);
                if users0[i2].id != id && users0[j2].id != id {
                    assert(users1[i2] == users0[i2] && users1[j2] == users0[j2]);
                }
            }
            assert(same_user_ids(users0, users1));
            assert forall|i2: int| 0 <= i2 < self.sessions@.len() implies spec_find_user(
                users1,
                (#[trigger] self.sessions@[i2]).user_id,
            ) is Some by {
                lemma_user_idx_same_ids(users0, users1, self.sessions@[i2].user_id);
                lemma_user_idx(users0, self.sessions@[i2].user_id);
                lemma_user_idx(users1, self.sessions@[i2].user_id);
            }
        }
        true
    }
}

/// One post rewritten by the text update: the text replaced and the update
/// time stamped, everything else kept.
pub open spec fn text_updated(p0: Post, p1: Post, text: Seq<char>, now: i64) -> bool {
    p1 == Post { text: p1.text, updated_at: now, ..p0 } && p1.text@ == text
}

pub open spec fn spec_expire_session(sessions: Seq<Session>, id: u128, now: i64) -> Seq<Session> {
    sessions.map_values(
        |s: Session|
            if s.id == id {
                Session { expires_at: now, ..s }
            } else {
                s
            },
    )
}

pub open spec fn spec_update_user(users: Seq<User>, id: u128, new: User) -> Seq<User> {
    users.map_values(
        |u: User|
            if u.id == id {
                new
            } else {
                u
            },
    )
}



/// Idempotent clear: clearing the same interaction twice is, the second
/// time, a no-op — the tables and counters stay exactly as after the first
/// call, so no counter is ever driven below its value before the first call.
pub proof fn lemma_clear_interaction_idempotent(
    posts: Seq<Post>,
    ints: Seq<PostInteraction>,
    pid: u128,
    uid: u128,
    kind: PostInteractionType,
)
    requires
        forall|i: int, j: int|
            0 <= i < j < ints.len() ==> !((#[trigger] ints[i]).post_id == (#[trigger] ints[j]).post_id
                && ints[i].user_id == ints[j].user_id),
    ensures
        ({
            let p1 = spec_clear_posts(posts, ints, pid, uid, kind);
            let i1 = spec_clear_ints(ints, pid, uid, kind);
            spec_clear_posts(p1, i1, pid, uid, kind) == p1 && spec_clear_ints(i1, pid, uid, kind)
                == i1
        }),
{
    lemma_clear_no_pair_row(ints, pid, uid, kind, kind);
}

/// Mutual exclusion: on a state where the user holds a Like on the content
/// post, setting Like and then Dislike leaves exactly one active row for
/// the pair — a Dislike — with the like counter one below and the dislike
/// counter one above their values before the first call.
pub proof fn lemma_mutual_exclusion(
    s0: Store,
    s1: Store,
    s2: Store,
    pid: u128,
    uid: u128,
    like_row: PostInteraction,
    dislike_row: PostInteraction,
)
    requires
        s0.wf(),
        s1.wf(),
        s2.wf(),
        has_row(s0.interactions@, pid, uid, PostInteractionType::Like),
        post_idx(s0.posts@, pid) < s0.posts@.len(),
        like_row.post_id == pid && like_row.user_id == uid && like_row.kind
            == PostInteractionType::Like,
        dislike_row.post_id == pid && dislike_row.user_id == uid && dislike_row.kind
            == PostInteractionType::Dislike,
        s1.posts@ == spec_set_interaction(
            s0.posts@,
            s0.interactions@,
            pid,
            uid,
            PostInteractionType::Like,
            like_row,
        ).0,
        s1.interactions@ == spec_set_interaction(
            s0.posts@,
            s0.interactions@,
            pid,
            uid,
            PostInteractionType::Like,
            like_row,
        ).1,
        s2.posts@ == spec_set_interaction(
            s1.posts@,
            s1.interactions@,
            pid,
            uid,
            PostInteractionType::Dislike,
            dislike_row,
        ).0,
        s2.interactions@ == spec_set_interaction(
            s1.posts@,
            s1.interactions@,
            pid,
            uid,
            PostInteractionType::Dislike,
            dislike_row,
        ).1,
    ensures
        count_rows(s2.interactions@, Some(pid), Some(uid), None) == 1,
        has_row(s2.interactions@, pid, uid, PostInteractionType::Dislike),
        !has_row(s2.interactions@, pid, uid, PostInteractionType::Like),
        post_idx(s2.posts@, pid) == post_idx(s0.posts@, pid),
        s2.posts@[post_idx(s0.posts@, pid)].likes_count == s0.posts@[post_idx(
            s0.posts@,
            pid,
        )].likes_count - 1,
        s2.posts@[post_idx(s0.posts@, pid)].dislikes_count == s0.posts@[post_idx(
            s0.posts@,
            pid,
        )].dislikes_count + 1,
{
    let ints0 = s0.interactions@;
    let posts0 = s0.posts@;
    let ti = post_idx(posts0, pid);
    lemma_post_idx(posts0, pid);
    let target0 = posts0[ti];
    // before the first call: a Like row, hence no Dislike row for the pair
    lemma_row_idx(ints0, pid, uid, PostInteractionType::Like);
    lemma_row_idx(ints0, pid, uid, PostInteractionType::Dislike);
    if has_row(ints0, pid, uid, PostInteractionType::Dislike) {
        let a = row_idx(ints0, pid, uid, PostInteractionType::Like);
        let b = row_idx(ints0, pid, uid, PostInteractionType::Dislike);
        assert(ints0[a].kind != ints0[b].kind);
        if a < b {
            assert(false);
        } else {
            assert(false);
        }
    }
    // the first call: the Like row is removed and re-inserted
    let intsA = spec_clear_ints(ints0, pid, uid, PostInteractionType::Like);
    lemma_clear_no_pair_row(
        ints0,
        pid,
        uid,
        PostInteractionType::Like,
        PostInteractionType::Dislike,
    );
    lemma_row_idx(intsA, pid, uid, PostInteractionType::Dislike);
    let i1 = s1.interactions@;
    assert(i1 == intsA.push(like_row));
    let postsA = spec_clear_posts(posts0, ints0, pid, uid, PostInteractionType::Like);
    lemma_counter_delta_same_shape(posts0, pid, PostInteractionType::Like, -1);
    lemma_counter_delta_same_shape(postsA, pid, PostInteractionType::Like, 1);
    lemma_post_idx_same_shape(posts0, postsA, pid);
    lemma_post_idx_same_shape(postsA, s1.posts@, pid);
    // in-range: the like counter is a row count, the dislike counter too
    lemma_count_rows_nonneg(ints0, Some(pid), None, Some(PostInteractionType::Like));
    lemma_count_rows_nonneg(ints0, Some(pid), None, Some(PostInteractionType::Dislike));
    lemma_count_rows_zero_iff_none(ints0, Some(pid), None, Some(PostInteractionType::Like));
    assert(row_matches(
        ints0[row_idx(ints0, pid, uid, PostInteractionType::Like)],
        Some(pid),
        None,
        Some(PostInteractionType::Like),
    ));
    assert(target0.likes_count >= 1);
    assert(postsA[ti] == with_counter_delta(posts0, pid, PostInteractionType::Like, -1)[ti]);
    assert(s1.posts@[ti] == with_counter_delta(postsA, pid, PostInteractionType::Like, 1)[ti]);
    assert(s1.posts@[ti].likes_count == target0.likes_count);
    assert(s1.posts@[ti].dislikes_count == target0.dislikes_count);
    // the second call: the fresh Like row is removed again, a Dislike pushed
    lemma_has_row_iff(i1, pid, uid, PostInteractionType::Like);
    assert(row_full_matches(
        i1[i1.len() - 1],
        pid,
        uid,
        PostInteractionType::Like,
    ));
    assert(has_row(i1, pid, uid, PostInteractionType::Like));
    if has_row(i1, pid, uid, PostInteractionType::Dislike) {
        lemma_row_idx(i1, pid, uid, PostInteractionType::Like);
        lemma_row_idx(i1, pid, uid, PostInteractionType::Dislike);
        let a = row_idx(i1, pid, uid, PostInteractionType::Like);
        let b = row_idx(i1, pid, uid, PostInteractionType::Dislike);
        assert(i1[a].kind != i1[b].kind);
        if a < b {
            assert(false);
        } else {
            assert(false);
        }
    }
    let intsB = spec_clear_ints(i1, pid, uid, PostInteractionType::Like);
    lemma_clear_no_pair_row(
        i1,
        pid,
        uid,
        PostInteractionType::Like,
        PostInteractionType::Like,
    );
    lemma_clear_no_pair_row(
        i1,
        pid,
        uid,
        PostInteractionType::Like,
        PostInteractionType::Dislike,
    );
    lemma_row_idx(intsB, pid, uid, PostInteractionType::Dislike);
    let i2 = s2.interactions@;
    assert(i2 == intsB.push(dislike_row));
    // exactly one pair row is left, and it is the Dislike
    lemma_row_idx(i1, pid, uid, PostInteractionType::Like);
    lemma_pair_count_split(i2, pid, uid);
    lemma_count_rows_push(intsB, dislike_row, Some(pid), Some(uid), Some(
        PostInteractionType::Like,
    ));
    lemma_count_rows_push(intsB, dislike_row, Some(pid), Some(uid), Some(
        PostInteractionType::Dislike,
    ));
    lemma_count_rows_zero_iff_none(intsB, Some(pid), Some(uid), Some(PostInteractionType::Like));
    lemma_count_rows_zero_iff_none(intsB, Some(pid), Some(uid), Some(
        PostInteractionType::Dislike,
    ));
    assert forall|k: int| 0 <= k < intsB.len() implies !row_matches(
        #[trigger] intsB[k],
        Some(pid),
        Some(uid),
        Some(PostInteractionType::Like),
    ) && !row_matches(intsB[k], Some(pid), Some(uid), Some(PostInteractionType::Dislike)) by {
        lemma_has_row_iff(intsB, pid, uid, PostInteractionType::Like);
        lemma_has_row_iff(intsB, pid, uid, PostInteractionType::Dislike);
    }
    lemma_has_row_iff(i2, pid, uid, PostInteractionType::Dislike);
    lemma_has_row_iff(i2, pid, uid, PostInteractionType::Like);
    assert(row_full_matches(i2[i2.len() - 1], pid, uid, PostInteractionType::Dislike));
    assert forall|k: int|
        0 <= k < i2.len() implies !row_full_matches(
        #[trigger] i2[k],
        pid,
        uid,
        PostInteractionType::Like,
    ) by {
        if k < i2.len() - 1 {
            assert(i2[k] == intsB[k]);
            assert(!row_matches(intsB[k], Some(pid), Some(uid), Some(PostInteractionType::Like)));
        }
    }
    // counters at the target post, read off the final state's invariant
    let postsB = spec_clear_posts(s1.posts@, i1, pid, uid, PostInteractionType::Like);
    lemma_counter_delta_same_shape(s1.posts@, pid, PostInteractionType::Like, -1);
    lemma_counter_delta_same_shape(postsB, pid, PostInteractionType::Dislike, 1);
    lemma_post_idx_same_shape(s1.posts@, postsB, pid);
    lemma_post_idx_same_shape(postsB, s2.posts@, pid);
    lemma_post_idx(s2.posts@, pid);
    assert(s2.posts@[ti].id == pid) by {
        assert(postsB[ti].id == s1.posts@[ti].id && s2.posts@[ti].id == postsB[ti].id);
        assert(s1.posts@[ti].id == postsA[ti].id && postsA[ti].id == posts0[ti].id);
    }
    if post_idx(s2.posts@, pid) != ti {
        assert(s2.posts@[post_idx(s2.posts@, pid)].id == pid);
        assert(false);
    }
    assert(s2.posts@[ti].likes_count == count_rows(
        s2.interactions@,
        Some(s2.posts@[ti].id),
        None,
        Some(PostInteractionType::Like),
    ) && s2.posts@[ti].dislikes_count == count_rows(
        s2.interactions@,
        Some(s2.posts@[ti].id),
        None,
        Some(PostInteractionType::Dislike),
    ));
    assert(target0.likes_count == count_rows(
        ints0,
        Some(posts0[ti].id),
        None,
        Some(PostInteractionType::Like),
    ) && target0.dislikes_count == count_rows(
        ints0,
        Some(posts0[ti].id),
        None,
        Some(PostInteractionType::Dislike),
    ));
    // chase the per-post counts through the four table edits
    let la = row_idx(ints0, pid, uid, PostInteractionType::Like);
    lemma_row_idx(ints0, pid, uid, PostInteractionType::Like);
    lemma_count_rows_remove(ints0, la, Some(pid), None, Some(PostInteractionType::Like));
    lemma_count_rows_remove(ints0, la, Some(pid), None, Some(PostInteractionType::Dislike));
    lemma_count_rows_push(intsA, like_row, Some(pid), None, Some(PostInteractionType::Like));
    lemma_count_rows_push(intsA, like_row, Some(pid), None, Some(PostInteractionType::Dislike));
    let lb = row_idx(i1, pid, uid, PostInteractionType::Like);
    lemma_row_idx(i1, pid, uid, PostInteractionType::Like);
    lemma_count_rows_remove(i1, lb, Some(pid), None, Some(PostInteractionType::Like));
    lemma_count_rows_remove(i1, lb, Some(pid), None, Some(PostInteractionType::Dislike));
    lemma_count_rows_push(intsB, dislike_row, Some(pid), None, Some(PostInteractionType::Like));
    lemma_count_rows_push(intsB, dislike_row, Some(pid), None, Some(PostInteractionType::Dislike));
    assert(s2.posts@[ti].likes_count == target0.likes_count - 1);
    assert(s2.posts@[ti].dislikes_count == target0.dislikes_count + 1);

}

/// View increments: three fetches of the same content post, by any viewers,
/// raise its view counter by exactly three and touch nothing else.
pub proof fn lemma_three_views(posts: Seq<Post>, pid: u128)
    requires
        post_idx(posts, pid) < posts.len(),
        posts[post_idx(posts, pid)].views_count + 3 <= i64::MAX,
        unique_post_ids(posts),
    ensures
        ({
            let p3 = spec_bump_views(spec_bump_views(spec_bump_views(posts, pid), pid), pid);
            let ti = post_idx(posts, pid);
            &&& post_idx(p3, pid) == ti
            &&& p3[ti].views_count == posts[ti].views_count + 3
            &&& forall|k: int|
                0 <= k < posts.len() && k != ti ==> #[trigger] p3[k] == posts[k]
        }),
{
    let ti = post_idx(posts, pid);
    lemma_post_idx(posts, pid);
    let p1 = spec_bump_views(posts, pid);
    let p2 = spec_bump_views(p1, pid);
    let p3 = spec_bump_views(p2, pid);
    lemma_bump_views_same_shape(posts, pid);
    lemma_bump_views_same_shape(p1, pid);
    lemma_bump_views_same_shape(p2, pid);
    lemma_post_idx_same_shape(posts, p1, pid);
    lemma_post_idx_same_shape(p1, p2, pid);
    lemma_post_idx_same_shape(p2, p3, pid);
    assert(p1[ti] == spec_bump_views(posts, pid)[ti]);
    assert(p2[ti] == spec_bump_views(p1, pid)[ti]);
    assert(p3[ti] == spec_bump_views(p2, pid)[ti]);
    assert forall|k: int| 0 <= k < posts.len() && k != ti implies #[trigger] p3[k] == posts[k] by {
        assert(p1[k] == spec_bump_views(posts, pid)[k]);
        assert(p2[k] == spec_bump_views(p1, pid)[k]);
        assert(p3[k] == spec_bump_views(p2, pid)[k]);
        if posts[k].id == pid {
            assert(posts[post_idx(posts, pid)].id == pid);
            assert(false);
        }
    }
}



/// The posts with the reply or repost counter of `pid` moved by one, held
/// inside the numeric range.
pub open spec fn spec_tree_counter(posts: Seq<Post>, pid: u128, kind: PostType, up: bool) -> Seq<
    Post,
> {
    posts.map_values(
        |p: Post|
            if p.id == pid {
                if kind == PostType::Reply {
                    if up && p.replies_count < i64::MAX {
                        Post { replies_count: (p.replies_count + 1) as i64, ..p }
                    } else if !up && p.replies_count > i64::MIN {
                        Post { replies_count: (p.replies_count - 1) as i64, ..p }
                    } else {
                        p
                    }
                } else {
                    if up && p.reposts_count < i64::MAX {
                        Post { reposts_count: (p.reposts_count + 1) as i64, ..p }
                    } else if !up && p.reposts_count > i64::MIN {
                        Post { reposts_count: (p.reposts_count - 1) as i64, ..p }
                    } else {
                        p
                    }
                }
            } else {
                p
            },
    )
}

pub proof fn lemma_tree_counter_same_shape(posts: Seq<Post>, pid: u128, kind: PostType, up: bool)
    ensures
        same_shape(posts, spec_tree_counter(posts, pid, kind, up)),
{
}

impl Store {
    /// Move the denormalized reply or repost counter of the post `pid` by
    /// one, as creating or deleting a child does.
    pub fn adjust_tree_counter(&mut self, pid: u128, kind: PostType, up: bool)
        requires
            old(self).wf(),
        ensures
            final(self).wf(),
            final(self).posts@ == spec_tree_counter(old(self).posts@, pid, kind, up),
            final(self).users == old(self).users,
            final(self).sessions == old(self).sessions,
            final(self).interactions == old(self).interactions,
    {
        let ghost posts0 = self.posts@;
        let mut i: usize = 0;
        while i < self.posts.len()
            invariant
                i <= self.posts@.len(),
                self.posts@.len() == posts0.len(),
                self.users == old(self).users,
                self.sessions == old(self).sessions,
                self.interactions == old(self).interactions,
                forall|k: int|
                    0 <= k < i ==> #[trigger] self.posts@[k] == spec_tree_counter(
                        posts0,
                        pid,
                        kind,
                        up,
                    )[k],
                forall|k: int| i <= k < posts0.len() ==> #[trigger] self.posts@[k] == posts0[k],
            decreases self.posts@.len() - i,
        {
            if self.posts[i].id == pid {
                let p = self.posts[i].clone();
                let np = if kind == PostType::Reply {
                    if up && p.replies_count < i64::MAX {
                        Post { replies_count: p.replies_count + 1, ..p }
                    } else if !up && p.replies_count > i64::MIN {
                        Post { replies_count: p.replies_count - 1, ..p }
                    } else {
                        p
                    }
                } else {
                    if up && p.reposts_count < i64::MAX {
                        Post { reposts_count: p.reposts_count + 1, ..p }
                    } else if !up && p.reposts_count > i64::MIN {
                        Post { reposts_count: p.reposts_count - 1, ..p }
                    } else {
                        p
                    }
                };
                self.posts[i] = np;
            }
            assert(self.posts@[i as int] == spec_tree_counter(posts0, pid, kind, up)[i as int]);
            i = i + 1;
        }
        assert(self.posts@ =~= spec_tree_counter(posts0, pid, kind, up));
        proof {
            let posts1 = self.posts@;
            lemma_tree_counter_same_shape(posts0, pid, kind, up);
            lemma_posts_wf_same_shape(posts0, posts1);
            lemma_ints_wf_same_shape(self.interactions@, posts0, posts1);
            assert forall|i2: int|
                0 <= i2 < posts1.len() implies (#[trigger] posts1[i2]).likes_count == count_rows(
                self.interactions@,
                Some(posts1[i2].id),
                None,
                Some(PostInteractionType::Like),
            ) && posts1[i2].dislikes_count == count_rows(
                self.interactions@,
                Some(posts1[i2].id),
                None,
                Some(PostInteractionType::Dislike),
            ) by {
                assert(posts1[i2].likes_count == posts0[i2].likes_count && posts1[i2].dislikes_count
                    == posts0[i2].dislikes_count && posts1[i2].id == posts0[i2].id);
            }
        }
    }
}

/// Under unique ids, a row of the table is exactly what the lookup of its
/// id returns.
pub proof fn lemma_find_contained_post(posts: Seq<Post>, p: Post)
    requires
        unique_post_ids(posts),
        posts.contains(p),
    ensures
        spec_find_post(posts, p.id) == Some(p),
{
    let j = choose|j: int| 0 <= j < posts.len() && posts[j] == p;
    lemma_post_idx(posts, p.id);
    let fi = post_idx(posts, p.id);
    if fi >= posts.len() {
        assert(posts[j].id == p.id);
        assert(false);
    }
    if fi != j {
        assert(posts[fi].id == p.id && posts[j].id == p.id);
        if fi < j {
            assert(false);
        } else {
            assert(false);
        }
    }
}

/// Under the user invariant, a row of the table is exactly what the lookup
/// of its id returns.
pub proof fn lemma_find_user_contained(users: Seq<User>, u: User)
    requires
        users_wf(users),
        users.contains(u),
    ensures
        spec_find_user(users, u.id) == Some(u),
{
    let j = choose|j: int| 0 <= j < users.len() && users[j] == u;
    lemma_user_idx(users, u.id);
    let fi = user_idx(users, u.id);
    if fi >= users.len() {
        assert(users[j].id == u.id);
        assert(false);
    }
    if fi != j {
        assert(users[fi].id == u.id && users[j].id == u.id);
        if fi < j {
            assert(false);
        } else {
            assert(false);
        }
    }
}

/// The view bumps that resolving a whole listing records, one content post
/// per listed row, in order.
pub open spec fn bump_many(posts: Seq<Post>, items: Seq<Post>) -> Seq<Post>
    decreases items.len(),
{
    if items.len() == 0 {
        posts
    } else {
        bump_many(spec_bump_views(posts, items[0].spec_content_post_id()), items.drop_first())
    }
}

impl Store {
    /// Seed the store: on an empty user table, one administrator account.
    pub fn seed(&mut self, now: i64)
        requires
            old(self).wf(),
        ensures
            final(self).wf(),
            old(self).users@.len() > 0 ==> *final(self) == *old(self),
            old(self).users@.len() == 0 ==> final(self).users@.len() == 1
                && final(self).users@[0].username@ == "admin"@ && final(self).users@[0].role
                == UserRole::Admin && crate::trusted::password_matches(
                "admin"@,
                final(self).users@[0].password@,
            ),
            final(self).sessions == old(self).sessions,
            final(self).posts == old(self).posts,
            final(self).interactions == old(self).interactions,
    {
        if self.users.len() != 0 {
            return ;
        }
        let user = User {
            id: crate::trusted::fresh_id(),
            username: "admin".to_owned(),
            email: "admin@plaatsoft.nl".to_owned(),
            password: crate::trusted::password_hash("admin"),
            firstname: Option::Some("Admin".to_owned()),
            lastname: Option::None,
            birthdate: Option::Some("2024-12-02".to_owned()),
            bio: Option::Some("Admin of PlaatBook".to_owned()),
            location: Option::Some("Gouda, Netherlands".to_owned()),
            website: Option::Some("https://www.plaatsoft.nl/".to_owned()),
            role: UserRole::Admin,
            created_at: now,
            updated_at: now,
        };
        let ok = self.insert_user(user);
        assert(ok);
    }
}



/// The rows kept after a delete: every post whose id is not condemned.
pub open spec fn keep_posts(posts: Seq<Post>, dead: Seq<u128>) -> Seq<Post>
    decreases posts.len(),
{
    if posts.len() == 0 {
        Seq::empty()
    } else {
        keep_posts(posts.drop_last(), dead) + (if dead.contains(posts.last().id) {
            Seq::empty()
        } else {
            seq![posts.last()]
        })
    }
}

/// The interaction rows kept after a delete: every row whose target is not
/// condemned.
pub open spec fn keep_ints(ints: Seq<PostInteraction>, dead: Seq<u128>) -> Seq<PostInteraction>
    decreases ints.len(),
{
    if ints.len() == 0 {
        Seq::empty()
    } else {
        keep_ints(ints.drop_last(), dead) + (if dead.contains(ints.last().post_id) {
            Seq::empty()
        } else {
            seq![ints.last()]
        })
    }
}

proof fn lemma_keep_posts_contains(posts: Seq<Post>, dead: Seq<u128>)
    ensures
        forall|k: int|
            0 <= k < keep_posts(posts, dead).len() ==> posts.contains(
                #[trigger] keep_posts(posts, dead)[k],
            ) && !dead.contains(keep_posts(posts, dead)[k].id),
    decreases posts.len(),
{
    if posts.len() > 0 {
        lemma_keep_posts_contains(posts.drop_last(), dead);
        assert forall|k: int|
            0 <= k < keep_posts(posts, dead).len() implies posts.contains(
            #[trigger] keep_posts(posts, dead)[k],
        ) && !dead.contains(keep_posts(posts, dead)[k].id) by {
            let kp = keep_posts(posts, dead);
            let kp0 = keep_posts(posts.drop_last(), dead);
            if k < kp0.len() {
                assert(kp[k] == kp0[k]);
                let j = choose|j: int| 0 <= j < posts.len() - 1 && posts.drop_last()[j] == kp0[k];
                assert(posts[j] == kp[k]);
            } else {
                assert(kp[k] == posts.last());
                assert(posts[posts.len() - 1] == kp[k]);
            }
        }
    }
}

/// A surviving id's row stays findable, unchanged.
proof fn lemma_keep_posts_member(posts: Seq<Post>, dead: Seq<u128>, p: Post)
    requires
        posts.contains(p),
        !dead.contains(p.id),
    ensures
        keep_posts(posts, dead).contains(p),
    decreases posts.len(),
{
    if posts.len() > 0 {
        if posts.last() == p {
            assert(keep_posts(posts, dead).last() == p);
        } else {
            let j = choose|j: int| 0 <= j < posts.len() && posts[j] == p;
            assert(posts.drop_last()[j] == p);
            lemma_keep_posts_member(posts.drop_last(), dead, p);
            let kp0 = keep_posts(posts.drop_last(), dead);
            let k = choose|k: int| 0 <= k < kp0.len() && kp0[k] == p;
            assert(keep_posts(posts, dead)[k] == p);
        }
    }
}

proof fn lemma_keep_posts_unique(posts: Seq<Post>, dead: Seq<u128>)
    requires
        unique_post_ids(posts),
    ensures
        unique_post_ids(keep_posts(posts, dead)),
    decreases posts.len(),
{
    if posts.len() > 0 {
        assert(unique_post_ids(posts.drop_last())) by {
            assert(forall|k: int|
                0 <= k < posts.len() - 1 ==> #[trigger] posts.drop_last()[k] == posts[k]);
        }
        lemma_keep_posts_unique(posts.drop_last(), dead);
        lemma_keep_posts_contains(posts.drop_last(), dead);
        let kp = keep_posts(posts, dead);
        let kp0 = keep_posts(posts.drop_last(), dead);
        assert forall|i: int, j: int|
            0 <= i < j < kp.len() implies (#[trigger] kp[i]).id != (#[trigger] kp[j]).id by {
            if j < kp0.len() {
                assert(kp[i] == kp0[i] && kp[j] == kp0[j]);
            } else {
                assert(kp[j] == posts.last());
                assert(kp[i] == kp0[i]);
                assert(posts.drop_last().contains(kp0[i]));
                let t = choose|t: int|
                    0 <= t < posts.len() - 1 && posts.drop_last()[t] == kp0[i];
                assert(posts[t] == kp0[i]);
                assert(posts[t].id != posts[posts.len() - 1].id);
            }
        }
    }
}

proof fn lemma_keep_ints_counts(
    ints: Seq<PostInteraction>,
    dead: Seq<u128>,
    pid: Option<u128>,
    uid: Option<u128>,
    kind: Option<PostInteractionType>,
)
    requires
        pid is Some,
        !dead.contains(pid->0),
    ensures
        count_rows(keep_ints(ints, dead), pid, uid, kind) == count_rows(ints, pid, uid, kind),
    decreases ints.len(),
{
    if ints.len() > 0 {
        lemma_keep_ints_counts(ints.drop_last(), dead, pid, uid, kind);
        let ki = keep_ints(ints, dead);
        let ki0 = keep_ints(ints.drop_last(), dead);
        let last = ints.last();
        if dead.contains(last.post_id) {
            assert(ki =~= ki0 + Seq::<PostInteraction>::empty());
            assert(ki =~= ki0);
            lemma_count_split_last(ints, pid, uid, kind);
            assert(!row_matches(last, pid, uid, kind));
        } else {
            lemma_count_rows_concat(ki0, seq![last], pid, uid, kind);
            assert(seq![last].drop_first() =~= Seq::<PostInteraction>::empty());
            assert(seq![last][0] == last);
            assert(count_rows(Seq::<PostInteraction>::empty(), pid, uid, kind) == 0);
            lemma_count_split_last(ints, pid, uid, kind);
        }
    }
}

/// A count splits off its last row.
proof fn lemma_count_split_last(
    ints: Seq<PostInteraction>,
    pid: Option<u128>,
    uid: Option<u128>,
    kind: Option<PostInteractionType>,
)
    requires
        ints.len() > 0,
    ensures
        count_rows(ints, pid, uid, kind) == count_rows(ints.drop_last(), pid, uid, kind) + (
        if row_matches(ints.last(), pid, uid, kind) {
            1int
        } else {
            0int
        }),
{
    assert(ints =~= ints.drop_last() + seq![ints.last()]);
    lemma_count_rows_concat(ints.drop_last(), seq![ints.last()], pid, uid, kind);
    assert(seq![ints.last()].drop_first() =~= Seq::<PostInteraction>::empty());
    assert(seq![ints.last()][0] == ints.last());
    assert(count_rows(Seq::<PostInteraction>::empty(), pid, uid, kind) == 0);
}

proof fn lemma_keep_ints_contains(ints: Seq<PostInteraction>, dead: Seq<u128>)
    ensures
        forall|k: int|
            0 <= k < keep_ints(ints, dead).len() ==> ints.contains(
                #[trigger] keep_ints(ints, dead)[k],
            ) && !dead.contains(keep_ints(ints, dead)[k].post_id),
    decreases ints.len(),
{
    if ints.len() > 0 {
        lemma_keep_ints_contains(ints.drop_last(), dead);
        assert forall|k: int|
            0 <= k < keep_ints(ints, dead).len() implies ints.contains(
            #[trigger] keep_ints(ints, dead)[k],
        ) && !dead.contains(keep_ints(ints, dead)[k].post_id) by {
            let ki = keep_ints(ints, dead);
            let ki0 = keep_ints(ints.drop_last(), dead);
            if k < ki0.len() {
                assert(ki[k] == ki0[k]);
                let j = choose|j: int| 0 <= j < ints.len() - 1 && ints.drop_last()[j] == ki0[k];
                assert(ints[j] == ki[k]);
            } else {
                assert(ki[k] == ints.last());
                assert(ints[ints.len() - 1] == ki[k]);
            }
        }
    }
}

/// An id is held by a row exactly when its lookup lands inside the table.
proof fn lemma_has_id_at(posts: Seq<Post>, k: int)
    requires
        0 <= k < posts.len(),
    ensures
        post_idx(posts, posts[k].id) < posts.len(),
{
    lemma_post_idx(posts, posts[k].id);
    if post_idx(posts, posts[k].id) >= posts.len() {
        assert(posts[k].id != posts[k].id);
    }
}

/// Pigeonhole: distinct ids, each held by some row of a table with unique
/// ids, are no more numerous than the rows.
proof fn lemma_distinct_ids_bound(dead: Seq<u128>, posts: Seq<Post>)
    requires
        unique_post_ids(posts),
        forall|i: int, j: int| 0 <= i < j < dead.len() ==> dead[i] != dead[j],
        forall|i: int| 0 <= i < dead.len() ==> post_idx(posts, #[trigger] dead[i]) < posts.len(),
    ensures
        dead.len() <= posts.len(),
    decreases dead.len(),
{
    if dead.len() > 0 {
        let d = dead.last();
        lemma_post_idx(posts, d);
        let k = post_idx(posts, d);
        let rest = posts.remove(k);
        assert(forall|t: int|
            0 <= t < rest.len() ==> #[trigger] rest[t] == (if t < k {
                posts[t]
            } else {
                posts[t + 1]
            }));
        assert(unique_post_ids(rest)) by {
            assert forall|i: int, j: int|
                0 <= i < j < rest.len() implies (#[trigger] rest[i]).id
                != (#[trigger] rest[j]).id by {
                let oi = if i < k {
                    i
                } else {
                    i + 1
                };
                let oj = if j < k {
                    j
                } else {
                    j + 1
                };
                assert(rest[i] == posts[oi] && rest[j] == posts[oj]);
            }
        }
        assert(forall|i: int|
            0 <= i < dead.len() - 1 ==> #[trigger] dead.drop_last()[i] == dead[i]);
        assert forall|i: int| 0 <= i < dead.drop_last().len() implies post_idx(
            rest,
            #[trigger] dead.drop_last()[i],
        ) < rest.len() by {
            let di = dead.drop_last()[i];
            assert(dead[i] == di);
            assert(post_idx(posts, dead[i]) < posts.len());
            lemma_post_idx(posts, di);
            let kk = post_idx(posts, di);
            assert(posts[kk].id == di);
            assert(di != d);
            if kk < k {
                assert(rest[kk] == posts[kk]);
                lemma_has_id_at(rest, kk);
            } else if kk > k {
                assert(rest[kk - 1] == posts[kk]);
                lemma_has_id_at(rest, kk - 1);
            } else {
                assert(false);
            }
        }
        lemma_distinct_ids_bound(dead.drop_last(), rest);
    }
}

fn id_in(v: &Vec<u128>, x: u128) -> (r: bool)
    ensures
        r == v@.contains(x),
{
    let mut i: usize = 0;
    while i < v.len()
        invariant
            i <= v@.len(),
            forall|k: int| 0 <= k < i ==> v@[k] != x,
        decreases v@.len() - i,
    {
        if v[i] == x {
            return true;
        }
        i = i + 1;
    }
    proof {
        if v@.contains(x) {
            let k = choose|k: int| 0 <= k < v@.len() && v@[k] == x;
            assert(false);
        }
    }
    false
}

impl Store {
    /// Delete a post: the parent's reply or repost counter falls by one,
    /// and the post is removed together with everything that hangs off it —
    /// its whole subtree of children and every interaction row whose target
    /// is condemned.
    pub fn delete_post(&mut self, root: Post) -> (dead: Ghost<Seq<u128>>)
        requires
            old(self).wf(),
            spec_find_post(old(self).posts@, root.id) == Some(root),
        ensures
            final(self).wf(),
            final(self).users == old(self).users,
            final(self).sessions == old(self).sessions,
            ({
                let d = dead@;
                let posts1 = if root.kind == PostType::Reply {
                    spec_tree_counter(old(self).posts@, root.parent_post_id->0, PostType::Reply, false)
                } else if root.kind == PostType::Repost {
                    spec_tree_counter(
                        old(self).posts@,
                        root.parent_post_id->0,
                        PostType::Repost,
                        false,
                    )
                } else {
                    old(self).posts@
                };
                &&& d.contains(root.id)
                &&& (forall|x: u128|
                    #[trigger] d.contains(x) ==> x == root.id || exists|k: int|
                        0 <= k < old(self).posts@.len() && (#[trigger] old(self).posts@[k]).id == x
                            && old(self).posts@[k].parent_post_id is Some && d.contains(
                            old(self).posts@[k].parent_post_id->0,
                        ))
                &&& (forall|k: int|
                    0 <= k < old(self).posts@.len() && (#[trigger] old(
                        self,
                    ).posts@[k]).parent_post_id is Some && d.contains(
                        old(self).posts@[k].parent_post_id->0,
                    ) ==> d.contains(old(self).posts@[k].id))
                &&& final(self).posts@ == keep_posts(posts1, d)
                &&& final(self).interactions@ == keep_ints(old(self).interactions@, d)
            }),
    {
        let ghost posts0 = self.posts@;
        match (root.kind, &root.parent_post_id) {
            (PostType::Reply, Option::Some(pp)) => {
                self.adjust_tree_counter(*pp, PostType::Reply, false);
            },
            (PostType::Repost, Option::Some(pp)) => {
                self.adjust_tree_counter(*pp, PostType::Repost, false);
            },
            _ => {
                proof {
                    lemma_post_idx(posts0, root.id);
                }
            },
        }
        let ghost posts1 = self.posts@;
        proof {
            lemma_post_idx(posts0, root.id);
            if root.kind != PostType::Normal {
                lemma_tree_counter_same_shape(
                    posts0,
                    root.parent_post_id->0,
                    root.kind,
                    false,
                );
            }
            assert(same_shape(posts0, posts1));
        }
        // collect the whole condemned subtree
        let mut dead: Vec<u128> = Vec::new();
        dead.push(root.id);
        assert(dead@[0] == root.id);
        proof {
            lemma_post_idx(posts0, root.id);
            assert(unique_post_ids(posts1));
            assert forall|i: int, j: int|
                0 <= i < j < posts0.len() implies (#[trigger] posts0[i]).id
                != (#[trigger] posts0[j]).id by {
                assert(posts1[i].id == posts0[i].id && posts1[j].id == posts0[j].id);
            }
        }
        let mut changed = true;
        while changed
            invariant
                self.wf(),
                posts1 == self.posts@,
                same_shape(posts0, posts1),
                dead@.len() >= 1,
                dead@.contains(root.id),
                forall|i: int, j: int| 0 <= i < j < dead@.len() ==> dead@[i] != dead@[j],
                forall|i: int|
                    0 <= i < dead@.len() ==> post_idx(posts0, #[trigger] dead@[i]) < posts0.len(),
                forall|i: int|
                    0 <= i < dead@.len() ==> (#[trigger] dead@[i] == root.id || exists|k: int|
                        0 <= k < posts0.len() && (#[trigger] posts0[k]).id == dead@[i]
                            && posts0[k].parent_post_id is Some && dead@.contains(
                            posts0[k].parent_post_id->0,
                        )),
                unique_post_ids(posts0),
                !changed ==> (forall|k: int|
                    0 <= k < posts0.len() && (#[trigger] posts0[k]).parent_post_id is Some
                        && dead@.contains(posts0[k].parent_post_id->0) ==> dead@.contains(
                        posts0[k].id,
                    )),
            decreases posts0.len() + 1 - dead@.len() + (if changed {
                1int
            } else {
                0int
            }),
        {
            proof {
                lemma_post_idx(posts0, root.id);
                lemma_distinct_ids_bound(dead@, posts0);
            }
            let ghost dead_entry = dead@;
            changed = false;
            let mut i: usize = 0;
            while i < self.posts.len()
                invariant
                    self.wf(),
                    posts1 == self.posts@,
                    same_shape(posts0, posts1),
                    i <= posts0.len(),
                    dead@.len() >= 1,
                    dead@.contains(root.id),
                    forall|i2: int, j2: int| 0 <= i2 < j2 < dead@.len() ==> dead@[i2] != dead@[j2],
                    forall|i2: int|
                        0 <= i2 < dead@.len() ==> post_idx(posts0, #[trigger] dead@[i2])
                            < posts0.len(),
                    unique_post_ids(posts0),
                    forall|i2: int|
                        0 <= i2 < dead@.len() ==> (#[trigger] dead@[i2] == root.id || exists|k: int|
                            0 <= k < posts0.len() && (#[trigger] posts0[k]).id == dead@[i2]
                                && posts0[k].parent_post_id is Some && dead@.contains(
                                posts0[k].parent_post_id->0,
                            )),
                    changed ==> dead@.len() > dead_entry.len(),
                    !changed ==> dead@ == dead_entry,
                    !changed ==> (forall|k: int|
                        0 <= k < i && (#[trigger] posts0[k]).parent_post_id is Some
                            && dead@.contains(posts0[k].parent_post_id->0) ==> dead@.contains(
                            posts0[k].id,
                        )),
                decreases posts0.len() - i,
            {
                let p = &self.posts[i];
                let hit = match &p.parent_post_id {
                    Option::Some(pp) => id_in(&dead, *pp),
                    Option::None => false,
                };
                let ghost dpre = dead@;
                if hit && !id_in(&dead, p.id) {
                    proof {
                        assert(posts1[i as int].id == posts0[i as int].id
                            && posts1[i as int].parent_post_id == posts0[i as int].parent_post_id);
                    }
                    dead.push(p.id);
                    changed = true;
                    proof {
                        assert(dead@.drop_last() =~= dpre);
                        assert(dead@.last() == posts0[i as int].id);
                        assert(forall|k: int|
                            0 <= k < dead@.len() - 1 ==> #[trigger] dead@[k] == dpre[k]);
                        assert forall|x: u128| dpre.contains(x) implies dead@.contains(x) by {
                            let t = choose|t: int| 0 <= t < dpre.len() && dpre[t] == x;
                            assert(dead@[t] == x);
                        }
                        assert(dead@.contains(root.id));
                        assert forall|i2: int|
                            0 <= i2 < dead@.len() implies (#[trigger] dead@[i2] == root.id
                            || exists|k: int|
                            0 <= k < posts0.len() && (#[trigger] posts0[k]).id == dead@[i2]
                                && posts0[k].parent_post_id is Some && dead@.contains(
                                posts0[k].parent_post_id->0,
                            )) by {
                            if i2 < dead@.len() - 1 {
                                assert(dead@[i2] == dpre[i2]);
                                if dpre[i2] != root.id {
                                    let k = choose|k: int|
                                        0 <= k < posts0.len() && (#[trigger] posts0[k]).id
                                            == dpre[i2] && posts0[k].parent_post_id is Some
                                            && dpre.contains(posts0[k].parent_post_id->0);
                                    assert(dead@.contains(posts0[k].parent_post_id->0));
                                    assert(posts0[k].id == dead@[i2]);
                                }
                            } else {
                                assert(dead@[i2] == posts0[i as int].id);
                                assert(posts0[i as int].parent_post_id is Some);
                                assert(dpre.contains(posts0[i as int].parent_post_id->0));
                                assert(dead@.contains(posts0[i as int].parent_post_id->0));
                            }
                        }
                        assert forall|i2: int| 0 <= i2 < dead@.len() implies post_idx(
                            posts0,
                            #[trigger] dead@[i2],
                        ) < posts0.len() by {
                            if i2 < dead@.len() - 1 {
                                assert(dead@[i2] == dpre[i2]);
                            } else {
                                assert(posts0[i as int].id == dead@[i2]);
                                lemma_has_id_at(posts0, i as int);
                            }
                        }
                    }
                }
                i = i + 1;
            }
            proof {
                lemma_distinct_ids_bound(dead@, posts0);
            }
        }
        // drop the condemned posts and their interaction rows
        let ghost dfinal = dead@;
        let mut new_posts: Vec<Post> = Vec::new();
        let mut i: usize = 0;
        while i < self.posts.len()
            invariant
                posts1 == self.posts@,
                i <= posts1.len(),
                dfinal == dead@,
                new_posts@ == keep_posts(posts1.subrange(0, i as int), dfinal),
            decreases posts1.len() - i,
        {
            let ghost prefix = posts1.subrange(0, i + 1);
            assert(prefix.drop_last() =~= posts1.subrange(0, i as int));
            assert(prefix.last() == posts1[i as int]);
            if !id_in(&dead, self.posts[i].id) {
                new_posts.push(self.posts[i].clone());
                assert(new_posts@ =~= keep_posts(posts1.subrange(0, i as int), dfinal) + seq![
                    posts1[i as int],
                ]);
            } else {
                assert(new_posts@ =~= keep_posts(posts1.subrange(0, i as int), dfinal)
                    + Seq::<Post>::empty());
            }
            i = i + 1;
        }
        assert(posts1.subrange(0, posts1.len() as int) =~= posts1);
        let ghost ints0 = self.interactions@;
        let mut new_ints: Vec<PostInteraction> = Vec::new();
        let mut j: usize = 0;
        while j < self.interactions.len()
            invariant
                ints0 == self.interactions@,
                j <= ints0.len(),
                dfinal == dead@,
                new_ints@ == keep_ints(ints0.subrange(0, j as int), dfinal),
            decreases ints0.len() - j,
        {
            let ghost prefix = ints0.subrange(0, j + 1);
            assert(prefix.drop_last() =~= ints0.subrange(0, j as int));
            assert(prefix.last() == ints0[j as int]);
            if !id_in(&dead, self.interactions[j].post_id) {
                new_ints.push(self.interactions[j].clone());
                assert(new_ints@ =~= keep_ints(ints0.subrange(0, j as int), dfinal) + seq![
                    ints0[j as int],
                ]);
            } else {
                assert(new_ints@ =~= keep_ints(ints0.subrange(0, j as int), dfinal)
                    + Seq::<PostInteraction>::empty());
            }
            j = j + 1;
        }
        assert(ints0.subrange(0, ints0.len() as int) =~= ints0);
        self.posts = new_posts;
        self.interactions = new_ints;
        proof {
            self.lemma_delete_wf(posts0, posts1, ints0, dfinal, root);
        }
        Ghost(dead@)
    }

    proof fn lemma_delete_wf(
        self,
        posts0: Seq<Post>,
        posts1: Seq<Post>,
        ints0: Seq<PostInteraction>,
        dead: Seq<u128>,
        root: Post,
    )
        requires
            users_wf(self.users@),
            sessions_wf(self.sessions@, self.users@),
            posts_wf(posts1),
            ints_wf(ints0, posts1),
            counters_wf(posts1, ints0),
            same_shape(posts0, posts1),
            self.posts@ == keep_posts(posts1, dead),
            self.interactions@ == keep_ints(ints0, dead),
            forall|k: int|
                0 <= k < posts0.len() && (#[trigger] posts0[k]).parent_post_id is Some
                    && dead.contains(posts0[k].parent_post_id->0) ==> dead.contains(posts0[k].id),
        ensures
            self.wf(),
    {
        let kp = self.posts@;
        let ki = self.interactions@;
        lemma_keep_posts_contains(posts1, dead);
        lemma_keep_posts_unique(posts1, dead);
        lemma_keep_ints_contains(ints0, dead);
        // survivors keep their shape, and their parents survive with them
        assert forall|i: int| 0 <= i < kp.len() implies ((#[trigger] kp[i]).parent_post_id is Some
            <==> kp[i].kind != PostType::Normal) && (kp[i].parent_post_id is Some
            ==> spec_find_post(kp, kp[i].parent_post_id->0) is Some) && (kp[i].kind
            == PostType::Repost ==> spec_find_post(kp, kp[i].parent_post_id->0)->0.kind
            != PostType::Repost) by {
            let p = kp[i];
            assert(posts1.contains(p));
            let t = choose|t: int| 0 <= t < posts1.len() && posts1[t] == p;
            if p.parent_post_id is Some {
                lemma_post_idx(posts1, p.parent_post_id->0);
                let parent = posts1[post_idx(posts1, p.parent_post_id->0)];
                assert(posts0[t].parent_post_id == p.parent_post_id && posts0[t].id == p.id);
                if dead.contains(p.parent_post_id->0) {
                    assert(dead.contains(posts0[t].id));
                    assert(false);
                }
                lemma_keep_posts_member(posts1, dead, parent);
                lemma_find_contained_post(kp, parent);
            }
        }
        assert forall|i: int| 0 <= i < ki.len() implies spec_find_post(
            kp,
            (#[trigger] ki[i]).post_id,
        ) is Some && spec_find_post(kp, ki[i].post_id)->0.kind != PostType::Repost by {
            let r = ki[i];
            assert(ints0.contains(r));
            let t = choose|t: int| 0 <= t < ints0.len() && ints0[t] == r;
            lemma_post_idx(posts1, r.post_id);
            let target = posts1[post_idx(posts1, r.post_id)];
            lemma_keep_posts_member(posts1, dead, target);
            lemma_find_contained_post(kp, target);
        }
        assert forall|i: int, j: int|
            0 <= i < j < ki.len() implies !((#[trigger] ki[i]).post_id == (#[trigger] ki[j]).post_id
            && ki[i].user_id == ki[j].user_id) by {
            lemma_keep_ints_pair_unique(ints0, dead, i, j);
        }
        assert forall|i: int| 0 <= i < kp.len() implies (#[trigger] kp[i]).likes_count
            == count_rows(ki, Some(kp[i].id), None, Some(PostInteractionType::Like))
            && kp[i].dislikes_count == count_rows(
            ki,
            Some(kp[i].id),
            None,
            Some(PostInteractionType::Dislike),
        ) by {
            let p = kp[i];
            assert(posts1.contains(p));
            let t = choose|t: int| 0 <= t < posts1.len() && posts1[t] == p;
            lemma_keep_ints_counts(ints0, dead, Some(p.id), None, Some(PostInteractionType::Like));
            lemma_keep_ints_counts(
                ints0,
                dead,
                Some(p.id),
                None,
                Some(PostInteractionType::Dislike),
            );
            assert(posts1[t].likes_count == count_rows(ints0, Some(posts1[t].id), None, Some(
                PostInteractionType::Like,
            )));
        }
    }
}

/// Two kept rows were two distinct rows before, so the pair stays unique.
proof fn lemma_keep_ints_pair_unique(ints: Seq<PostInteraction>, dead: Seq<u128>, i: int, j: int)
    requires
        forall|a: int, b: int|
            0 <= a < b < ints.len() ==> !((#[trigger] ints[a]).post_id == (#[trigger] ints[b]).post_id
                && ints[a].user_id == ints[b].user_id),
        0 <= i < j < keep_ints(ints, dead).len(),
    ensures
        !(keep_ints(ints, dead)[i].post_id == keep_ints(ints, dead)[j].post_id && keep_ints(
            ints,
            dead,
        )[i].user_id == keep_ints(ints, dead)[j].user_id),
    decreases ints.len(),
{
    let ki = keep_ints(ints, dead);
    let ki0 = keep_ints(ints.drop_last(), dead);
    if j < ki0.len() {
        assert(forall|a: int, b: int|
            0 <= a < b < ints.len() - 1 ==> !((#[trigger] ints.drop_last()[a]).post_id
                == (#[trigger] ints.drop_last()[b]).post_id && ints.drop_last()[a].user_id
                == ints.drop_last()[b].user_id));
        lemma_keep_ints_pair_unique(ints.drop_last(), dead, i, j);
        assert(ki[i] == ki0[i] && ki[j] == ki0[j]);
    } else {
        assert(ki[j] == ints.last());
        assert(ki[i] == ki0[i]);
        lemma_keep_ints_contains(ints.drop_last(), dead);
        assert(ints.drop_last().contains(ki0[i]));
        let t = choose|t: int| 0 <= t < ints.len() - 1 && ints.drop_last()[t] == ki0[i];
        assert(ints[t] == ki[i]);
        assert(!(ints[t].post_id == ints[ints.len() - 1].post_id && ints[t].user_id
            == ints[ints.len() - 1].user_id));
    }
}


} // verus!
