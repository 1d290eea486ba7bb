//! The data model: stored rows (users, sessions, posts, interaction rows) and
//! the projections that responses carry.

use vstd::prelude::*;

verus! {

/// Kind of a post: a normal post, a reply to another post, or a repost of a
/// content post.
#[derive(Clone, Copy, PartialEq, Eq, Structural, Debug)]
pub enum PostType {
    Normal,
    Reply,
    Repost,
}

/// An interaction a user can have with a content post.
#[derive(Clone, Copy, PartialEq, Eq, Structural, Debug)]
pub enum PostInteractionType {
    Like,
    Dislike,
}

#[derive(Clone, Copy, PartialEq, Eq, Structural, Debug)]
pub enum UserRole {
    Normal,
    Admin,
}

pub struct User {
    pub id: u128,
    pub username: String,
    pub email: String,
    pub password: String,
    pub firstname: Option<String>,
    pub lastname: Option<String>,
    pub birthdate: Option<String>,
    pub bio: Option<String>,
    pub location: Option<String>,
    pub website: Option<String>,
    pub role: UserRole,
    pub created_at: i64,
    pub updated_at: i64,
}

pub struct Session {
    pub id: u128,
    pub user_id: u128,
    pub token: String,
    pub ip_address: String,
    pub ip_country: Option<String>,
    pub ip_city: Option<String>,
    pub client_name: Option<String>,
    pub client_version: Option<String>,
    pub client_os: Option<String>,
    pub expires_at: i64,
    pub created_at: i64,
    pub updated_at: i64,
}

/// One stored post row. The denormalized counters live here; for a repost
/// they are ignored at read time and copied down from the content post.
pub struct Post {
    pub id: u128,
    pub kind: PostType,
    pub parent_post_id: Option<u128>,
    pub user_id: u128,
    pub text: String,
    pub replies_count: i64,
    pub reposts_count: i64,
    pub likes_count: i64,
    pub dislikes_count: i64,
    pub views_count: i64,
    pub created_at: i64,
    pub updated_at: i64,
}

/// One active interaction row; its target is always a content post.
pub struct PostInteraction {
    pub id: u128,
    pub post_id: u128,
    pub user_id: u128,
    pub kind: PostInteractionType,
    pub created_at: i64,
    pub updated_at: i64,
}

fn clone_opt_string(o: &Option<String>) -> (r: Option<String>)
    ensures
        r == *o,
{
    match o {
        Option::Some(s) => Option::Some(s.clone()),
        Option::None => Option::None,
    }
}

impl Clone for User {
    fn clone(&self) -> (r: Self)
        ensures
            r == *self,
    {
        User {
            id: self.id,
            username: self.username.clone(),
            email: self.email.clone(),
            password: self.password.clone(),
            firstname: clone_opt_string(&self.firstname),
            lastname: clone_opt_string(&self.lastname),
            birthdate: clone_opt_string(&self.birthdate),
            bio: clone_opt_string(&self.bio),
            location: clone_opt_string(&self.location),
            website: clone_opt_string(&self.website),
            role: self.role,
            created_at: self.created_at,
            updated_at: self.updated_at,
        }
    }
}

impl Clone for Session {
    fn clone(&self) -> (r: Self)
        ensures
            r == *self,
    {
        Session {
            id: self.id,
            user_id: self.user_id,
            token: self.token.clone(),
            ip_address: self.ip_address.clone(),
            ip_country: clone_opt_string(&self.ip_country),
            ip_city: clone_opt_string(&self.ip_city),
            client_name: clone_opt_string(&self.client_name),
            client_version: clone_opt_string(&self.client_version),
            client_os: clone_opt_string(&self.client_os),
            expires_at: self.expires_at,
            created_at: self.created_at,
            updated_at: self.updated_at,
        }
    }
}

impl Clone for Post {
    fn clone(&self) -> (r: Self)
        ensures
            r == *self,
    {
        Post {
            id: self.id,
            kind: self.kind,
            parent_post_id: self.parent_post_id,
            user_id: self.user_id,
            text: self.text.clone(),
            replies_count: self.replies_count,
            reposts_count: self.reposts_count,
            likes_count: self.likes_count,
            dislikes_count: self.dislikes_count,
            views_count: self.views_count,
            created_at: self.created_at,
            updated_at: self.updated_at,
        }
    }
}

impl Clone for PostInteraction {
    fn clone(&self) -> (r: Self)
        ensures
            r == *self,
    {
        PostInteraction {
            id: self.id,
            post_id: self.post_id,
            user_id: self.user_id,
            kind: self.kind,
            created_at: self.created_at,
            updated_at: self.updated_at,
        }
    }
}

impl Post {
    /// The post that owns likes, dislikes and views: a repost's parent, the
    /// post itself otherwise.
    pub open spec fn spec_content_post_id(self) -> u128 {
        if self.kind == PostType::Repost {
            self.parent_post_id->0
        } else {
            self.id
        }
    }

    /// See `spec_content_post_id`.
    pub fn content_post_id(&self) -> (r: u128)
        requires
            self.kind == PostType::Repost ==> self.parent_post_id is Some,
        ensures
            r == self.spec_content_post_id(),
    {
        if self.kind == PostType::Repost {
            self.parent_post_id.unwrap()
        } else {
            self.id
        }
    }
}

/// A user as responses carry it: without the password credential and role.
pub struct ApiUser {
    pub id: u128,
    pub username: String,
    pub email: String,
    pub firstname: Option<String>,
    pub lastname: Option<String>,
    pub birthdate: Option<String>,
    pub bio: Option<String>,
    pub location: Option<String>,
    pub website: Option<String>,
    pub created_at: i64,
    pub updated_at: i64,
}

impl User {
    pub open spec fn spec_to_api(self) -> ApiUser {
        ApiUser {
            id: self.id,
            username: self.username,
            email: self.email,
            firstname: self.firstname,
            lastname: self.lastname,
            birthdate: self.birthdate,
            bio: self.bio,
            location: self.location,
            website: self.website,
            created_at: self.created_at,
            updated_at: self.updated_at,
        }
    }

    pub fn to_api(&self) -> (r: ApiUser)
        ensures
            r == self.spec_to_api(),
    {
        ApiUser {
            id: self.id,
            username: self.username.clone(),
            email: self.email.clone(),
            firstname: clone_opt_string(&self.firstname),
            lastname: clone_opt_string(&self.lastname),
            birthdate: clone_opt_string(&self.birthdate),
            bio: clone_opt_string(&self.bio),
            location: clone_opt_string(&self.location),
            website: clone_opt_string(&self.website),
            created_at: self.created_at,
            updated_at: self.updated_at,
        }
    }
}

/// A session as responses carry it: without the bearer token, optionally with
/// its owning user attached.
pub struct ApiSession {
    pub id: u128,
    pub ip_address: String,
    pub ip_country: Option<String>,
    pub ip_city: Option<String>,
    pub client_name: Option<String>,
    pub client_version: Option<String>,
    pub client_os: Option<String>,
    pub expires_at: i64,
    pub created_at: i64,
    pub updated_at: i64,
    pub user: Option<ApiUser>,
}

impl Session {
    pub open spec fn spec_to_api(self, user: Option<ApiUser>) -> ApiSession {
        ApiSession {
            id: self.id,
            ip_address: self.ip_address,
            ip_country: self.ip_country,
            ip_city: self.ip_city,
            client_name: self.client_name,
            client_version: self.client_version,
            client_os: self.client_os,
            expires_at: self.expires_at,
            created_at: self.created_at,
            updated_at: self.updated_at,
            user,
        }
    }

    pub fn to_api(&self, user: Option<ApiUser>) -> (r: ApiSession)
        ensures
            r == self.spec_to_api(user),
    {
        ApiSession {
            id: self.id,
            ip_address: self.ip_address.clone(),
            ip_country: clone_opt_string(&self.ip_country),
            ip_city: clone_opt_string(&self.ip_city),
            client_name: clone_opt_string(&self.client_name),
            client_version: clone_opt_string(&self.client_version),
            client_os: clone_opt_string(&self.client_os),
            expires_at: self.expires_at,
            created_at: self.created_at,
            updated_at: self.updated_at,
            user,
        }
    }
}

/// A post as responses carry it, after resolution: rendered text, the owning
/// user, at most one nested parent projection, the copied-down counters, and
/// the viewer's own interaction flags.
pub struct ResolvedPost {
    pub id: u128,
    pub kind: PostType,
    pub text: String,
    pub text_html: String,
    pub replies_count: i64,
    pub reposts_count: i64,
    pub likes_count: i64,
    pub dislikes_count: i64,
    pub views_count: i64,
    pub created_at: i64,
    pub updated_at: i64,
    pub parent_post: Option<Box<ResolvedPost>>,
    pub user: Option<ApiUser>,
    pub replies: Option<Vec<ResolvedPost>>,
    pub auth_user_liked: Option<bool>,
    pub auth_user_disliked: Option<bool>,
}

/// The listing query of every index endpoint: a text filter and a page
/// window.
pub struct IndexQuery {
    pub query: String,
    pub page: i64,
    pub limit: i64,
}

impl Default for IndexQuery {
    /// An empty filter, the first page, twenty rows.
    fn default() -> (r: Self)
        ensures
            r.query@ == Seq::<char>::empty(),
            r.page == 1,
            r.limit == 20,
    {
        IndexQuery { query: String::new(), page: 1, limit: 20 }
    }
}

} // verus!
