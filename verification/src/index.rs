//! The query index: a relational projection of the ledger. Users and
//! posts are materialized from blocks; lookups, search, the feed join
//! and reply hydration read from it.

use vstd::prelude::*;
use crate::block::Block;
use crate::block::BlockData;
use crate::block::BlockDataModel;
use crate::block::BlockModel;
use crate::text::contains_ci;
use crate::text::str_contains_ci;
use crate::text::str_eq;

verus! {

/// A registered user row.
#[derive(Debug)]
pub struct User {
    pub display_name: String,
    pub username: String,
    pub biography: String,
    pub public_key: String,
}

/// A post joined with its author.
#[derive(Debug)]
pub struct Post {
    pub hash: String,
    pub author: User,
    pub body: String,
    pub reply: Option<String>,
    pub timestamp: u64,
}

/// A post with its replies and, when it is itself a reply, its parent.
#[derive(Debug)]
pub struct PostDetail {
    pub post: Post,
    pub replies: Vec<Post>,
    pub reply_to: Option<Post>,
}

/// The stored post row: the author is a public key, not yet joined.
#[derive(Debug)]
struct PostRow {
    hash: String,
    author: String,
    body: String,
    reply: Option<String>,
    timestamp: u64,
}

pub ghost struct UserModel {
    pub display_name: Seq<char>,
    pub username: Seq<char>,
    pub biography: Seq<char>,
    pub public_key: Seq<char>,
}

pub ghost struct PostRowModel {
    pub hash: Seq<char>,
    pub author: Seq<char>,
    pub body: Seq<char>,
    pub reply: Option<Seq<char>>,
    pub timestamp: u64,
}

pub ghost struct PostModel {
    pub hash: Seq<char>,
    pub author: UserModel,
    pub body: Seq<char>,
    pub reply: Option<Seq<char>>,
    pub timestamp: u64,
}

pub ghost struct PostDetailModel {
    pub post: PostModel,
    pub replies: Seq<PostModel>,
    pub reply_to: Option<PostModel>,
}

/// The relational state: users and post rows, in insertion order.
#[verifier::ext_equal]
pub ghost struct IndexModel {
    pub users: Seq<UserModel>,
    pub posts: Seq<PostRowModel>,
}

impl View for User {
    type V = UserModel;

    open spec fn view(&self) -> UserModel {
        UserModel {
            display_name: self.display_name@,
            username: self.username@,
            biography: self.biography@,
            public_key: self.public_key@,
        }
    }
}

impl Clone for User {
    fn clone(&self) -> (r: Self)
        ensures
            r@ == self@,
    {
        User {
            display_name: self.display_name.clone(),
            username: self.username.clone(),
            biography: self.biography.clone(),
            public_key: self.public_key.clone(),
        }
    }
}

impl View for Post {
    type V = PostModel;

    open spec fn view(&self) -> PostModel {
        PostModel {
            hash: self.hash@,
            author: self.author@,
            body: self.body@,
            reply: match &self.reply {
                Some(r) => Some(r@),
                None => None,
            },
            timestamp: self.timestamp,
        }
    }
}

impl Clone for Post {
    fn clone(&self) -> (r: Self)
        ensures
            r@ == self@,
    {
        Post {
            hash: self.hash.clone(),
            author: self.author.clone(),
            body: self.body.clone(),
            reply: match &self.reply {
                Some(r) => Some(r.clone()),
                None => None,
            },
            timestamp: self.timestamp,
        }
    }
}

impl View for PostDetail {
    type V = PostDetailModel;

    open spec fn view(&self) -> PostDetailModel {
        PostDetailModel {
            post: self.post@,
            replies: self.replies@.map_values(|p: Post| p@),
            reply_to: match &self.reply_to {
                Some(p) => Some(p@),
                None => None,
            },
        }
    }
}

impl View for PostRow {
    type V = PostRowModel;

    closed spec fn view(&self) -> PostRowModel {
        PostRowModel {
            hash: self.hash@,
            author: self.author@,
            body: self.body@,
            reply: match &self.reply {
                Some(r) => Some(r@),
                None => None,
            },
            timestamp: self.timestamp,
        }
    }
}

/// The view of a vector of joined posts.
pub open spec fn posts_model(v: Seq<Post>) -> Seq<PostModel> {
    v.map_values(|p: Post| p@)
}

/// The view of a vector of users.
pub open spec fn users_model(v: Seq<User>) -> Seq<UserModel> {
    v.map_values(|u: User| u@)
}

/// The view of a vector of strings.
pub open spec fn strings_model(v: Seq<String>) -> Seq<Seq<char>> {
    v.map_values(|s: String| s@)
}

// ---------------------------------------------------------------------------
// The projection of blocks into the relational state
// ---------------------------------------------------------------------------

/// The first user row with the given public key.
pub open spec fn find_user_by_key(users: Seq<UserModel>, pk: Seq<char>) -> Option<UserModel>
    decreases users.len(),
{
    if users.len() == 0 {
        None
    } else if users[0].public_key == pk {
        Some(users[0])
    } else {
        find_user_by_key(users.skip(1), pk)
    }
}

/// The first user row with the given username.
pub open spec fn find_user_by_name(users: Seq<UserModel>, name: Seq<char>) -> Option<UserModel>
    decreases users.len(),
{
    if users.len() == 0 {
        None
    } else if users[0].username == name {
        Some(users[0])
    } else {
        find_user_by_name(users.skip(1), name)
    }
}

/// The first post row with the given hash.
pub open spec fn find_post_row(posts: Seq<PostRowModel>, hash: Seq<char>) -> Option<PostRowModel>
    decreases posts.len(),
{
    if posts.len() == 0 {
        None
    } else if posts[0].hash == hash {
        Some(posts[0])
    } else {
        find_post_row(posts.skip(1), hash)
    }
}

/// How one block changes the relational state:
/// a `User` block inserts a row keyed by public key, ignored when the
/// key is already present; a `UserUpdate` block rewrites the display
/// name and biography of the rows with its key (none: discarded);
/// a `Post` block inserts a row keyed by hash, ignored when the hash is
/// already present; genesis changes nothing.
pub open spec fn apply_block(m: IndexModel, b: BlockModel) -> IndexModel {
    match b.data {
        BlockDataModel::User { display_name, username, biography } => {
            if find_user_by_key(m.users, b.public_key) is Some {
                m
            } else {
                IndexModel {
                    users: m.users.push(
                        UserModel {
                            display_name: display_name,
                            username: username,
                            biography: biography,
                            public_key: b.public_key,
                        },
                    ),
                    posts: m.posts,
                }
            }
        },
        BlockDataModel::UserUpdate { display_name, biography } => IndexModel {
            users: Seq::new(
                m.users.len(),
                |i: int|
                    if m.users[i].public_key == b.public_key {
                        UserModel {
                            display_name: display_name,
                            username: m.users[i].username,
                            biography: biography,
                            public_key: m.users[i].public_key,
                        }
                    } else {
                        m.users[i]
                    },
            ),
            posts: m.posts,
        },
        BlockDataModel::Post { body, reply } => {
            if find_post_row(m.posts, b.hash) is Some {
                m
            } else {
                IndexModel {
                    users: m.users,
                    posts: m.posts.push(
                        PostRowModel {
                            hash: b.hash,
                            author: b.public_key,
                            body: body,
                            reply: reply,
                            timestamp: b.timestamp,
                        },
                    ),
                }
            }
        },
        BlockDataModel::Genesis => m,
    }
}

/// The relational state projected from a sequence of blocks.
pub open spec fn project_blocks(blocks: Seq<BlockModel>) -> IndexModel
    decreases blocks.len(),
{
    if blocks.len() == 0 {
        IndexModel { users: Seq::empty(), posts: Seq::empty() }
    } else {
        apply_block(project_blocks(blocks.drop_last()), blocks.last())
    }
}

// ---------------------------------------------------------------------------
// Query results, as functions of the relational state
// ---------------------------------------------------------------------------

/// Join one post row with its author; the row is dropped when the
/// author is not registered.
pub open spec fn join_post(users: Seq<UserModel>, p: PostRowModel) -> Option<PostModel> {
    match find_user_by_key(users, p.author) {
        None => None,
        Some(u) => Some(
            PostModel {
                hash: p.hash,
                author: u,
                body: p.body,
                reply: p.reply,
                timestamp: p.timestamp,
            },
        ),
    }
}

/// The joined posts whose author's username is in `names` (every joined
/// post when `names` is empty), in insertion order.
pub open spec fn feed_rows(
    users: Seq<UserModel>,
    posts: Seq<PostRowModel>,
    names: Seq<Seq<char>>,
) -> Seq<PostModel>
    decreases posts.len(),
{
    if posts.len() == 0 {
        Seq::empty()
    } else {
        feed_rows(users, posts.drop_last(), names) + (match join_post(users, posts.last()) {
            None => Seq::<PostModel>::empty(),
            Some(p) => {
                if names.len() == 0 || names.contains(p.author.username) {
                    seq![p]
                } else {
                    Seq::<PostModel>::empty()
                }
            },
        })
    }
}

/// The feed: filtered joined posts, then `offset` dropped and at most
/// `limit` kept.
pub open spec fn feed_spec(
    m: IndexModel,
    names: Seq<Seq<char>>,
    limit: nat,
    offset: nat,
) -> Seq<PostModel> {
    let rows = feed_rows(m.users, m.posts, names);
    let lo = if offset > rows.len() {
        rows.len() as int
    } else {
        offset as int
    };
    let hi = if lo + limit > rows.len() {
        rows.len() as int
    } else {
        lo + limit
    };
    rows.subrange(lo, hi)
}

/// The joined post with the given hash, when its row and author exist.
pub open spec fn get_post_spec(m: IndexModel, hash: Seq<char>) -> Option<PostModel> {
    match find_post_row(m.posts, hash) {
        None => None,
        Some(row) => join_post(m.users, row),
    }
}

/// The joined posts that reply to the given hash, in insertion order.
pub open spec fn replies_spec(m: IndexModel, hash: Seq<char>) -> Seq<PostModel>
    decreases m.posts.len(),
{
    if m.posts.len() == 0 {
        Seq::empty()
    } else {
        replies_spec(IndexModel { users: m.users, posts: m.posts.drop_last() }, hash) + (
        if m.posts.last().reply == Some(hash) {
            match join_post(m.users, m.posts.last()) {
                None => Seq::<PostModel>::empty(),
                Some(p) => seq![p],
            }
        } else {
            Seq::<PostModel>::empty()
        })
    }
}

/// The users whose username contains the query, ASCII
/// case-insensitively, in insertion order.
pub open spec fn search_spec(users: Seq<UserModel>, q: Seq<char>) -> Seq<UserModel>
    decreases users.len(),
{
    if users.len() == 0 {
        Seq::empty()
    } else {
        search_spec(users.drop_last(), q) + (if contains_ci(users.last().username, q) {
            seq![users.last()]
        } else {
            Seq::<UserModel>::empty()
        })
    }
}

/// A post detail: the post, its replies, and its parent when it replies
/// to a post that exists.
pub open spec fn hydrate_spec(m: IndexModel, p: PostModel) -> PostDetailModel {
    PostDetailModel {
        post: p,
        replies: replies_spec(m, p.hash),
        reply_to: match p.reply {
            None => None,
            Some(h) => get_post_spec(m, h),
        },
    }
}

// ---------------------------------------------------------------------------
// The index
// ---------------------------------------------------------------------------

/// The materialized relational projection of the ledger.
#[derive(Debug)]
pub struct Index {
    users: Vec<User>,
    posts: Vec<PostRow>,
}

impl View for Index {
    type V = IndexModel;

    closed spec fn view(&self) -> IndexModel {
        IndexModel {
            users: self.users@.map_values(|u: User| u@),
            posts: self.posts@.map_values(|p: PostRow| p@),
        }
    }
}

impl Index {
    /// An empty index.
    pub fn new() -> (r: Index)
        ensures
            r@.users =~= Seq::<UserModel>::empty(),
            r@.posts =~= Seq::<PostRowModel>::empty(),
    {
        Index { users: Vec::new(), posts: Vec::new() }
    }

    /// The position of the first user row with this public key.
    fn find_user_index(&self, pk: &str) -> (r: Option<usize>)
        ensures
            r is Some <==> find_user_by_key(self@.users, pk@) is Some,
            r matches Some(i) ==> i < self@.users.len() && find_user_by_key(self@.users, pk@)
                == Some(self@.users[i as int]),
    {
        let ghost users = self@.users;
        proof {
            assert(users.skip(0) =~= users);
        }
        let mut i: usize = 0;
        while i < self.users.len()
            invariant
                users == self@.users,
                i <= users.len(),
                users.len() == self.users@.len(),
                find_user_by_key(users, pk@) == find_user_by_key(users.skip(i as int), pk@),
            decreases self.users@.len() - i,
        {
            if str_eq(self.users[i].public_key.as_str(), pk) {
                proof {
                    assert(users.skip(i as int)[0] == users[i as int]);
                }
                return Some(i);
            }
            proof {
                assert(users.skip(i as int)[0] == users[i as int]);
                assert(users.skip(i as int).skip(1) =~= users.skip(i as int + 1));
            }
            i = i + 1;
        }
        proof {
            assert(users.skip(users.len() as int) =~= Seq::<UserModel>::empty());
        }
        None
    }

    /// Project one block into the index.
    pub fn add_block(&mut self, block: Block)
        ensures
            final(self)@ == apply_block(old(self)@, block@),
    {
        let ghost pre = self@;
        match &block.data {
            BlockData::Post { body, reply } => {
                self.index_post(&block);
            },
            BlockData::User { display_name, username, biography } => {
                self.index_user(&block);
            },
            BlockData::UserUpdate { display_name, biography } => {
                self.index_user(&block);
            },
            BlockData::Genesis => {
                proof {
                    assert(apply_block(pre, block@) == pre);
                }
            },
        }
    }

    /// Insert a post row, ignored when the hash is already present.
    fn index_post(&mut self, block: &Block)
        requires
            block@.data is Post,
        ensures
            final(self)@ == apply_block(old(self)@, block@),
    {
        let ghost pre = self@;
        if let BlockData::Post { body, reply } = &block.data {
            let seen = self.find_post_index(block.hash.as_str());
            if seen.is_none() {
                let row = PostRow {
                    hash: block.hash.clone(),
                    author: block.public_key.clone(),
                    body: body.clone(),
                    reply: match reply {
                        Some(r) => Some(r.clone()),
                        None => None,
                    },
                    timestamp: block.timestamp,
                };
                self.posts.push(row);
                proof {
                    assert(self@.posts =~= pre.posts.push(
                        PostRowModel {
                            hash: block@.hash,
                            author: block@.public_key,
                            body: body@,
                            reply: match reply {
                                Some(r) => Some(r@),
                                None => None,
                            },
                            timestamp: block@.timestamp,
                        },
                    ));
                    assert(self@.users =~= pre.users);
                    assert(self@ == apply_block(pre, block@));
                }
            } else {
                proof {
                    assert(self@ == apply_block(pre, block@));
                }
            }
        }
    }

    /// The position of the first post row with this hash.
    fn find_post_index(&self, hash: &str) -> (r: Option<usize>)
        ensures
            r is Some <==> find_post_row(self@.posts, hash@) is Some,
    {
        let ghost posts = self@.posts;
        proof {
            assert(posts.skip(0) =~= posts);
        }
        let mut i: usize = 0;
        while i < self.posts.len()
            invariant
                posts == self@.posts,
                i <= posts.len(),
                posts.len() == self.posts@.len(),
                find_post_row(posts, hash@) == find_post_row(posts.skip(i as int), hash@),
            decreases self.posts@.len() - i,
        {
            if str_eq(self.posts[i].hash.as_str(), hash) {
                proof {
                    assert(posts.skip(i as int)[0] == posts[i as int]);
                }
                return Some(i);
            }
            proof {
                assert(posts.skip(i as int)[0] == posts[i as int]);
                assert(posts.skip(i as int).skip(1) =~= posts.skip(i as int + 1));
            }
            i = i + 1;
        }
        proof {
            assert(posts.skip(posts.len() as int) =~= Seq::<PostRowModel>::empty());
        }
        None
    }

    /// Insert a user row keyed by public key, or apply an update to the
    /// rows with that key.
    fn index_user(&mut self, block: &Block)
        requires
            block@.data is User || block@.data is UserUpdate,
        ensures
            final(self)@ == apply_block(old(self)@, block@),
    {
        let ghost pre = self@;
        if let BlockData::User { display_name, username, biography } = &block.data {
            let seen = self.find_user_index(block.public_key.as_str());
            if seen.is_none() {
                let row = User {
                    display_name: display_name.clone(),
                    username: username.clone(),
                    biography: biography.clone(),
                    public_key: block.public_key.clone(),
                };
                self.users.push(row);
                proof {
                    assert(self@.users =~= pre.users.push(
                        UserModel {
                            display_name: display_name@,
                            username: username@,
                            biography: biography@,
                            public_key: block@.public_key,
                        },
                    ));
                    assert(self@.posts =~= pre.posts);
                    assert(self@ == apply_block(pre, block@));
                }
            } else {
                proof {
                    assert(self@ == apply_block(pre, block@));
                }
            }
        } else if let BlockData::UserUpdate { display_name, biography } = &block.data {
            let ghost goal = apply_block(pre, block@);
            let mut rewritten: Vec<User> = Vec::new();
            let mut i: usize = 0;
            while i < self.users.len()
                invariant
                    self@ == pre,
                    i <= pre.users.len(),
                    pre.users.len() == self.users@.len(),
                    rewritten@.len() == i,
                    block@.data matches BlockDataModel::UserUpdate {
                        display_name: dn,
                        biography: bio,
                    } && dn == display_name@ && bio == biography@,
                    goal == apply_block(pre, block@),
                    forall|j: int| 0 <= j < i ==> #[trigger] rewritten@[j]@ == goal.users[j],
                decreases self.users@.len() - i,
            {
                if str_eq(self.users[i].public_key.as_str(), block.public_key.as_str()) {
                    let updated = User {
                        display_name: display_name.clone(),
                        username: self.users[i].username.clone(),
                        biography: biography.clone(),
                        public_key: self.users[i].public_key.clone(),
                    };
                    rewritten.push(updated);
                } else {
                    rewritten.push(self.users[i].clone());
                }
                proof {
                    assert(rewritten@[i as int]@ == goal.users[i as int]);
                }
                i = i + 1;
            }
            self.users = rewritten;
            proof {
                assert(self@.users =~= goal.users);
                assert(self@.posts =~= goal.posts);
                assert(self@ == goal);
            }
        }
    }

    /// Whether a user row with this username exists.
    pub fn has_username(&self, username: &str) -> (r: bool)
        ensures
            r == (find_user_by_name(self@.users, username@) is Some),
    {
        self.get_user_by_username(username).is_some()
    }

    /// Whether a user row with this public key exists.
    pub fn has_pubkey(&self, public_key: &str) -> (r: bool)
        ensures
            r == (find_user_by_key(self@.users, public_key@) is Some),
    {
        self.find_user_index(public_key).is_some()
    }

    /// The first user with this username.
    pub fn get_user_by_username(&self, username: &str) -> (r: Option<User>)
        ensures
            r is Some <==> find_user_by_name(self@.users, username@) is Some,
            r matches Some(u) ==> find_user_by_name(self@.users, username@) == Some(u@),
    {
        let ghost users = self@.users;
        proof {
            assert(users.skip(0) =~= users);
        }
        let mut i: usize = 0;
        while i < self.users.len()
            invariant
                users == self@.users,
                i <= users.len(),
                users.len() == self.users@.len(),
                find_user_by_name(users, username@) == find_user_by_name(
                    users.skip(i as int),
                    username@,
                ),
            decreases self.users@.len() - i,
        {
            if str_eq(self.users[i].username.as_str(), username) {
                proof {
                    assert(users.skip(i as int)[0] == users[i as int]);
                }
                return Some(self.users[i].clone());
            }
            proof {
                assert(users.skip(i as int)[0] == users[i as int]);
                assert(users.skip(i as int).skip(1) =~= users.skip(i as int + 1));
            }
            i = i + 1;
        }
        proof {
            assert(users.skip(users.len() as int) =~= Seq::<UserModel>::empty());
        }
        None
    }

    /// The user with this public key.
    pub fn get_user_by_public_key(&self, public_key: &str) -> (r: Option<User>)
        ensures
            r is Some <==> find_user_by_key(self@.users, public_key@) is Some,
            r matches Some(u) ==> find_user_by_key(self@.users, public_key@) == Some(u@),
    {
        match self.find_user_index(public_key) {
            Some(i) => Some(self.users[i].clone()),
            None => None,
        }
    }

    /// The users whose username contains the query, case-insensitively.
    pub fn search_users(&self, username: String) -> (r: Vec<User>)
        ensures
            users_model(r@) =~= search_spec(self@.users, username@),
    {
        let ghost users = self@.users;
        let mut out: Vec<User> = Vec::new();
        let mut i: usize = 0;
        while i < self.users.len()
            invariant
                users == self@.users,
                i <= users.len(),
                users.len() == self.users@.len(),
                users_model(out@) =~= search_spec(users.take(i as int), username@),
            decreases self.users@.len() - i,
        {
            proof {
                assert(users.take(i as int + 1).drop_last() =~= users.take(i as int));
                assert(users.take(i as int + 1).last() == users[i as int]);
            }
            if str_contains_ci(self.users[i].username.as_str(), username.as_str()) {
                out.push(self.users[i].clone());
            }
            i = i + 1;
        }
        proof {
            assert(users.take(users.len() as int) =~= users);
        }
        out
    }

    /// Join one stored post row with its author.
    fn join_row(&self, i: usize) -> (r: Option<Post>)
        requires
            i < self@.posts.len(),
        ensures
            r is Some <==> join_post(self@.users, self@.posts[i as int]) is Some,
            r matches Some(p) ==> join_post(self@.users, self@.posts[i as int]) == Some(p@),
    {
        let row = &self.posts[i];
        match self.find_user_index(row.author.as_str()) {
            None => None,
            Some(u) => {
                let author = self.users[u].clone();
                Some(
                    Post {
                        hash: row.hash.clone(),
                        author,
                        body: row.body.clone(),
                        reply: match &row.reply {
                            Some(r) => Some(r.clone()),
                            None => None,
                        },
                        timestamp: row.timestamp,
                    },
                )
            },
        }
    }

    /// The feed for a set of usernames: joined posts filtered by author
    /// username (unfiltered when the set is empty), then `offset`
    /// dropped and at most `limit` kept.
    pub fn get_feed(&self, users: Vec<String>, limit: usize, offset: usize) -> (r: Vec<Post>)
        ensures
            posts_model(r@) =~= feed_spec(
                self@,
                strings_model(users@),
                limit as nat,
                offset as nat,
            ),
    {
        let ghost names = strings_model(users@);
        let mut rows: Vec<Post> = Vec::new();
        let mut i: usize = 0;
        while i < self.posts.len()
            invariant
                names == strings_model(users@),
                i <= self@.posts.len(),
                self@.posts.len() == self.posts@.len(),
                posts_model(rows@) =~= feed_rows(self@.users, self@.posts.take(i as int), names),
            decreases self.posts@.len() - i,
        {
            proof {
                assert(self@.posts.take(i as int + 1).drop_last() =~= self@.posts.take(i as int));
                assert(self@.posts.take(i as int + 1).last() == self@.posts[i as int]);
            }
            match self.join_row(i) {
                None => {},
                Some(p) => {
                    if users.len() == 0 {
                        rows.push(p);
                    } else {
                        let mut found = false;
                        let mut j: usize = 0;
                        while j < users.len()
                            invariant
                                names == strings_model(users@),
                                j <= users@.len(),
                                found <==> exists|j2: int|
                                    0 <= j2 < j && names[j2] == p@.author.username,
                            decreases users@.len() - j,
                        {
                            if str_eq(users[j].as_str(), p.author.username.as_str()) {
                                found = true;
                                proof {
                                    assert(names[j as int] == p@.author.username);
                                }
                                j = users.len();
                            } else {
                                j = j + 1;
                            }
                        }
                        proof {
                            assert(found == names.contains(p@.author.username));
                        }
                        if found {
                            rows.push(p);
                        }
                    }
                },
            }
            i = i + 1;
        }
        proof {
            assert(self@.posts.take(self@.posts.len() as int) =~= self@.posts);
        }
        let total = rows.len();
        let lo = if offset > total {
            total
        } else {
            offset
        };
        let hi = if limit > total - lo {
            total
        } else {
            lo + limit
        };
        let mut out: Vec<Post> = Vec::new();
        let mut k: usize = lo;
        while k < hi
            invariant
                lo <= k <= hi <= rows@.len(),
                posts_model(out@) =~= posts_model(rows@).subrange(lo as int, k as int),
            decreases hi - k,
        {
            let p = rows[k].clone();
            let ghost prevm = posts_model(out@);
            let ghost pv = p@;
            out.push(p);
            proof {
                assert(posts_model(out@) =~= prevm.push(pv));
                assert(pv == posts_model(rows@)[k as int]);
                assert(posts_model(rows@).subrange(lo as int, k as int + 1) =~= posts_model(
                    rows@,
                ).subrange(lo as int, k as int).push(posts_model(rows@)[k as int]));
            }
            k = k + 1;
        }
        proof {
            let all = feed_rows(self@.users, self@.posts, names);
            assert(posts_model(rows@) =~= all);
            assert(posts_model(out@) =~= feed_spec(self@, names, limit as nat, offset as nat));
        }
        out
    }

    /// The joined post with this hash.
    pub fn get_post(&self, hash: &str) -> (r: Option<Post>)
        ensures
            r is Some <==> get_post_spec(self@, hash@) is Some,
            r matches Some(p) ==> get_post_spec(self@, hash@) == Some(p@),
    {
        let ghost posts = self@.posts;
        proof {
            assert(posts.skip(0) =~= posts);
        }
        let mut i: usize = 0;
        while i < self.posts.len()
            invariant
                posts == self@.posts,
                i <= posts.len(),
                posts.len() == self.posts@.len(),
                find_post_row(posts, hash@) == find_post_row(posts.skip(i as int), hash@),
            decreases self.posts@.len() - i,
        {
            if str_eq(self.posts[i].hash.as_str(), hash) {
                proof {
                    assert(posts.skip(i as int)[0] == posts[i as int]);
                }
                return self.join_row(i);
            }
            proof {
                assert(posts.skip(i as int)[0] == posts[i as int]);
                assert(posts.skip(i as int).skip(1) =~= posts.skip(i as int + 1));
            }
            i = i + 1;
        }
        proof {
            assert(posts.skip(posts.len() as int) =~= Seq::<PostRowModel>::empty());
        }
        None
    }

    /// The joined posts that reply to this hash.
    pub fn get_replies(&self, hash: &str) -> (r: Vec<Post>)
        ensures
            posts_model(r@) =~= replies_spec(self@, hash@),
    {
        let mut out: Vec<Post> = Vec::new();
        let mut i: usize = 0;
        while i < self.posts.len()
            invariant
                i <= self@.posts.len(),
                self@.posts.len() == self.posts@.len(),
                posts_model(out@) =~= replies_spec(
                    IndexModel { users: self@.users, posts: self@.posts.take(i as int) },
                    hash@,
                ),
            decreases self.posts@.len() - i,
        {
            proof {
                assert(self@.posts.take(i as int + 1).drop_last() =~= self@.posts.take(i as int));
                assert(self@.posts.take(i as int + 1).last() == self@.posts[i as int]);
            }
            let is_reply = match &self.posts[i].reply {
                Some(r) => str_eq(r.as_str(), hash),
                None => false,
            };
            if is_reply {
                match self.join_row(i) {
                    None => {},
                    Some(p) => {
                        out.push(p);
                    },
                }
            }
            i = i + 1;
        }
        proof {
            assert(self@.posts.take(self@.posts.len() as int) =~= self@.posts);
        }
        out
    }

    /// Hydrate one post with its replies and its parent.
    pub fn hydrate_post(&self, post: Post) -> (r: PostDetail)
        ensures
            r@ == hydrate_spec(self@, post@),
    {
        let replies = self.get_replies(post.hash.as_str());
        let reply_to = match &post.reply {
            Some(h) => self.get_post(h.as_str()),
            None => None,
        };
        let r = PostDetail { post, replies, reply_to };
        proof {
            assert(r@.replies =~= hydrate_spec(self@, r@.post).replies);
        }
        r
    }

    /// Hydrate a whole feed.
    pub fn hydrate_feed(&self, feed: Vec<Post>) -> (r: Vec<PostDetail>)
        ensures
            r@.len() == feed@.len(),
            forall|i: int|
                0 <= i < feed@.len() ==> #[trigger] r@[i]@ == hydrate_spec(
                    self@,
                    posts_model(feed@)[i],
                ),
    {
        let mut out: Vec<PostDetail> = Vec::new();
        let mut i: usize = 0;
        while i < feed.len()
            invariant
                i <= feed@.len(),
                out@.len() == i,
                forall|j: int|
                    0 <= j < i ==> #[trigger] out@[j]@ == hydrate_spec(
                        self@,
                        posts_model(feed@)[j],
                    ),
            decreases feed@.len() - i,
        {
            let p = feed[i].clone();
            out.push(self.hydrate_post(p));
            i = i + 1;
        }
        out
    }
}

} // verus!
