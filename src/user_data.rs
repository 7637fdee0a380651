use vstd::prelude::*;

verus! {

/// What a physics body or collider stands for.
#[derive(Clone, Copy, Debug, PartialEq, Eq, Structural)]
pub struct UserDataFlags {
    pub object: bool,
    pub wall: bool,
}

impl UserDataFlags {
    /// The flag set packed into its two low bits.
    pub open spec fn spec_bits(self) -> int {
        (if self.object { 1int } else { 0int }) + (if self.wall { 2int } else { 0int })
    }

    pub fn bits(&self) -> (r: u8)
        ensures
            r == self.spec_bits(),
    {
        let o: u8 = if self.object { 1 } else { 0 };
        let w: u8 = if self.wall { 2 } else { 0 };
        o + w
    }

    /// Unpacks a flag set; bits above the two known flags are refused.
    pub fn from_bits(bits: u8) -> (r: Option<UserDataFlags>)
        ensures
            bits < 4 <==> r is Some,
            r matches Some(f) ==> f.spec_bits() == bits,
    {
        if bits < 4 {
            Some(UserDataFlags { object: bits % 2 == 1, wall: bits / 2 == 1 })
        } else {
            None
        }
    }
}

/// The tag stored with a physics body: what it is and a small id.
#[derive(Clone, Copy, Debug, PartialEq, Eq, Structural)]
pub struct UserData {
    pub flags: UserDataFlags,
    pub id: u8,
}

/// `flags` in the second byte, `id` in the first.
pub open spec fn packed(u: UserData) -> int {
    u.flags.spec_bits() * 256 + u.id
}

/// The tag that a packed value holds, if its flag bits are known.
pub open spec fn unpacked(n: int) -> Option<UserData> {
    let bits = (n / 256) % 256;
    if bits < 4 {
        Some(
            UserData {
                flags: UserDataFlags { object: bits % 2 == 1, wall: bits / 2 == 1 },
                id: (n % 256) as u8,
            },
        )
    } else {
        None
    }
}

impl UserData {
    pub fn wall(id: u8) -> (r: UserData)
        ensures
            r.flags == (UserDataFlags { object: false, wall: true }),
            r.id == id,
    {
        UserData { flags: UserDataFlags { object: false, wall: true }, id }
    }

    pub fn object(id: u8) -> (r: UserData)
        ensures
            r.flags == (UserDataFlags { object: true, wall: false }),
            r.id == id,
    {
        UserData { flags: UserDataFlags { object: true, wall: false }, id }
    }

    pub fn is_wall(&self) -> (r: bool)
        ensures
            r == self.flags.wall,
    {
        self.flags.wall
    }

    pub fn is_object(&self) -> (r: bool)
        ensures
            r == self.flags.object,
    {
        self.flags.object
    }

    /// The tag packed into two bytes: flags above, id below.
    pub fn to_u64(&self) -> (r: u64)
        ensures
            r == packed(*self),
            r < 0x400,
    {
        let bits = self.flags.bits() as u64;
        let id = self.id as u64;
        let r = bits << 8u64 | id;
        assert(r == bits * 256 + id) by (bit_vector)
            requires
                r == bits << 8u64 | id,
                bits < 256,
                id < 256,
        ;
        r
    }
}

impl UserData {
    /// The tag packed in the low two bytes of `n`; `None` when its flag byte
    /// holds unknown bits.
    pub fn from_u64(n: u64) -> (r: Option<UserData>)
        ensures
            (n >> 8u64) & 0xffu64 < 4 <==> r is Some,
            r matches Some(u) ==> u.id == n & 0xffu64 && u.flags.spec_bits() == (n >> 8u64)
                & 0xffu64,
    {
        let hi = (n >> 8u64) & 0xffu64;
        let lo = n & 0xffu64;
        assert(hi < 256 && lo < 256) by (bit_vector)
            requires
                hi == (n >> 8u64) & 0xffu64,
                lo == n & 0xffu64,
        ;
        match UserDataFlags::from_bits(hi as u8) {
            Some(flags) => Some(UserData { flags, id: lo as u8 }),
            None => None,
        }
    }

    /// The tag packed in the low two bytes of `n`; `None` when its flag byte
    /// holds unknown bits.
    pub fn from_i64(n: i64) -> (r: Option<UserData>)
        ensures
            (n >> 8i64) & 0xffi64 < 4 <==> r is Some,
            r matches Some(u) ==> u.id == n & 0xffi64 && u.flags.spec_bits() == (n >> 8i64)
                & 0xffi64,
    {
        let hi = (n >> 8i64) & 0xffi64;
        let lo = n & 0xffi64;
        assert(0 <= hi < 256 && 0 <= lo < 256) by (bit_vector)
            requires
                hi == (n >> 8i64) & 0xffi64,
                lo == n & 0xffi64,
        ;
        match UserDataFlags::from_bits(hi as u8) {
            Some(flags) => Some(UserData { flags, id: lo as u8 }),
            None => None,
        }
    }

    /// The tag packed in the low two bytes of `n`; `None` when its flag byte
    /// holds unknown bits.
    pub fn from_u128(n: u128) -> (r: Option<UserData>)
        ensures
            (n >> 8u128) & 0xffu128 < 4 <==> r is Some,
            r matches Some(u) ==> u.id == n & 0xffu128 && u.flags.spec_bits() == (n >> 8u128)
                & 0xffu128,
    {
        let hi = (n >> 8u128) & 0xffu128;
        let lo = n & 0xffu128;
        assert(hi < 256 && lo < 256) by (bit_vector)
            requires
                hi == (n >> 8u128) & 0xffu128,
                lo == n & 0xffu128,
        ;
        match UserDataFlags::from_bits(hi as u8) {
            Some(flags) => Some(UserData { flags, id: lo as u8 }),
            None => None,
        }
    }
}

impl From<UserData> for i64 {
    fn from(u: UserData) -> (r: i64) {
        u.to_u64() as i64
    }
}

impl vstd::std_specs::convert::FromSpecImpl<UserData> for i64 {
    open spec fn obeys_from_spec() -> bool {
        true
    }

    open spec fn from_spec(u: UserData) -> i64 {
        packed(u) as i64
    }
}

impl From<UserData> for u128 {
    fn from(u: UserData) -> (r: u128) {
        u.to_u64() as u128
    }
}

impl vstd::std_specs::convert::FromSpecImpl<UserData> for u128 {
    open spec fn obeys_from_spec() -> bool {
        true
    }

    open spec fn from_spec(u: UserData) -> u128 {
        packed(u) as u128
    }
}

impl From<UserData> for u64 {
    fn from(u: UserData) -> (r: u64) {
        u.to_u64()
    }
}

impl vstd::std_specs::convert::FromSpecImpl<UserData> for u64 {
    open spec fn obeys_from_spec() -> bool {
        true
    }

    open spec fn from_spec(u: UserData) -> u64 {
        packed(u) as u64
    }
}

} // verus!
