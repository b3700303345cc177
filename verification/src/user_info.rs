//! User profiles.
//!
//! Each node carries a profile: a device name, an optional nickname, avatar
//! and status, and a flat list of custom string fields.  Profiles are
//! exchanged once per peer over the user-info protocol.

use vstd::prelude::*;

use crate::bytes::bytes_eq;

verus! {

/// A node's profile.
#[derive(Debug)]
pub struct UserInfo {
    /// The device's name.
    pub device_name: Vec<u8>,
    /// The user's nickname, if set.
    pub nickname: Option<Vec<u8>>,
    /// An avatar URL, if set.
    pub avatar_url: Option<Vec<u8>>,
    /// A status line, if set.
    pub status: Option<Vec<u8>>,
    /// Custom fields, key/value pairs with unique keys, in insertion order.
    pub custom_data: Vec<(Vec<u8>, Vec<u8>)>,
}

/// Mathematical view of a profile.
pub struct UserInfoView {
    pub device_name: Seq<u8>,
    pub nickname: Option<Seq<u8>>,
    pub avatar_url: Option<Seq<u8>>,
    pub status: Option<Seq<u8>>,
    pub custom_data: Seq<(Seq<u8>, Seq<u8>)>,
}

impl UserInfoView {
    /// The display-name policy: the nickname when present and non-empty,
    /// else the device name.
    pub open spec fn display_name(self) -> Seq<u8> {
        match self.nickname {
            Some(n) => if n.len() > 0 {
                n
            } else {
                self.device_name
            },
            None => self.device_name,
        }
    }
}

impl View for UserInfo {
    type V = UserInfoView;

    open spec fn view(&self) -> UserInfoView {
        UserInfoView {
            device_name: self.device_name@,
            nickname: match self.nickname {
                Some(n) => Some(n@),
                None => None,
            },
            avatar_url: match self.avatar_url {
                Some(a) => Some(a@),
                None => None,
            },
            status: match self.status {
                Some(s) => Some(s@),
                None => None,
            },
            custom_data: self.custom_data@.map_values(|p: (Vec<u8>, Vec<u8>)| (p.0@, p.1@)),
        }
    }
}

impl UserInfo {
    /// A profile with only the device name set.
    pub fn new(device_name: Vec<u8>) -> (r: Self)
        ensures
            r.device_name == device_name,
            r.nickname is None,
            r.avatar_url is None,
            r.status is None,
            r.custom_data@.len() == 0,
    {
        Self {
            device_name,
            nickname: None,
            avatar_url: None,
            status: None,
            custom_data: Vec::new(),
        }
    }

    /// The same profile with the nickname set.
    pub fn with_nickname(self, nickname: Vec<u8>) -> (r: Self)
        ensures
            r == (UserInfo { nickname: Some(nickname), ..self }),
    {
        UserInfo { nickname: Some(nickname), ..self }
    }

    /// The same profile with the avatar URL set.
    pub fn with_avatar_url(self, url: Vec<u8>) -> (r: Self)
        ensures
            r == (UserInfo { avatar_url: Some(url), ..self }),
    {
        UserInfo { avatar_url: Some(url), ..self }
    }

    /// The same profile with the status line set.
    pub fn with_status(self, status: Vec<u8>) -> (r: Self)
        ensures
            r == (UserInfo { status: Some(status), ..self }),
    {
        UserInfo { status: Some(status), ..self }
    }

    /// The same profile with one custom field set: an existing key has its
    /// value replaced, a new key is appended.
    pub fn with_custom_data(self, key: Vec<u8>, value: Vec<u8>) -> (r: Self)
        ensures
            r.device_name == self.device_name,
            r.nickname == self.nickname,
            r.avatar_url == self.avatar_url,
            r.status == self.status,
            (exists|i: int|
                0 <= i < self.custom_data@.len() && self.custom_data@[i].0@ == key@)
                ==> exists|i: int|
                {
                    &&& 0 <= i < self.custom_data@.len()
                    &&& self.custom_data@[i].0@ == key@
                    &&& r.custom_data@.len() == self.custom_data@.len()
                    &&& (#[trigger] r.custom_data@[i]).0@ == key@
                    &&& r.custom_data@[i].1@ == value@
                    &&& forall|j: int|
                        0 <= j < self.custom_data@.len() && j != i ==> r.custom_data@[j]
                            == self.custom_data@[j]
                },
            !(exists|i: int|
                0 <= i < self.custom_data@.len() && self.custom_data@[i].0@ == key@) ==> {
                &&& r.custom_data@.len() == self.custom_data@.len() + 1
                &&& r.custom_data@ == self.custom_data@.push((key, value))
            },
    {
        let mut me = self;
        let mut i: usize = 0;
        while i < me.custom_data.len()
            invariant
                i <= me.custom_data@.len(),
                me.device_name == self.device_name,
                me.nickname == self.nickname,
                me.avatar_url == self.avatar_url,
                me.status == self.status,
                me.custom_data@ == self.custom_data@,
                forall|j: int| 0 <= j < i ==> me.custom_data@[j].0@ != key@,
            decreases me.custom_data@.len() - i,
        {
            if bytes_eq(&me.custom_data[i].0, &key) {
                let ghost pre = me.custom_data@;
                let mut entry = me.custom_data.remove(i);
                entry.1 = value;
                let ghost e = entry;
                me.custom_data.insert(i, entry);
                proof {
                    pre.remove_ensures(i as int);
                    pre.remove(i as int).insert_ensures(i as int, e);
                    assert(me.custom_data@.len() == pre.len());
                    assert(me.custom_data@[i as int] == e);
                    assert(exists|j: int|
                        0 <= j < pre.len() && pre[j].0@ == key@);
                }
                return me;
            }
            i += 1;
        }
        me.custom_data.push((key, value));
        me
    }

    /// The name shown for this profile: the nickname when one is set and
    /// non-empty, else the device name.
    pub fn display_name(&self) -> (r: &Vec<u8>)
        ensures
            r@ == self@.display_name(),
    {
        match &self.nickname {
            Some(n) => if n.len() > 0 {
                n
            } else {
                &self.device_name
            },
            None => &self.device_name,
        }
    }
}

} // verus!
