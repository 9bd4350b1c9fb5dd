//! The five-octet sensor frame and its checksum.

use vstd::prelude::*;
use vstd::arithmetic::power2::pow2;
use vstd::bits::lemma_u64_shr_is_div;
use vstd::arithmetic::div_mod::lemma_fundamental_div_mod_converse;

verus! {

/// One 40-bit sensor response, split into its five octets in wire order.
#[derive(Clone, Copy, Debug, PartialEq, Eq, Structural)]
pub struct Frame {
    pub h_int: u8,
    pub h_frac: u8,
    pub t_int: u8,
    pub t_frac: u8,
    pub checksum: u8,
}

impl Frame {
    /// The five octets in the order in which they travel on the wire.
    pub open spec fn octets(self) -> Seq<u8> {
        seq![self.h_int, self.h_frac, self.t_int, self.t_frac, self.checksum]
    }

    /// Sum of the four data octets, reduced modulo 256.
    pub open spec fn data_sum(self) -> int {
        (self.h_int + self.h_frac + self.t_int + self.t_frac) % 256
    }

    /// Whether the checksum octet agrees with the four data octets.
    pub open spec fn checksum_ok(self) -> bool {
        self.data_sum() == self.checksum
    }

    /// The frame made of the first five octets of `s`.
    pub open spec fn of_octets(s: Seq<u8>) -> Frame {
        Frame { h_int: s[0], h_frac: s[1], t_int: s[2], t_frac: s[3], checksum: s[4] }
    }

    /// Builds a frame from five octets in wire order.
    pub fn from_octets(octets: [u8; 5]) -> (frame: Frame)
        ensures
            frame == Frame::of_octets(octets@),
            frame.octets() == octets@,
    {
        let frame = Frame {
            h_int: octets[0],
            h_frac: octets[1],
            t_int: octets[2],
            t_frac: octets[3],
            checksum: octets[4],
        };
        assert(frame.octets() =~= octets@);
        frame
    }

    /// Builds the frame that carries four data octets, with the checksum that
    /// belongs to them.
    pub fn with_data(h_int: u8, h_frac: u8, t_int: u8, t_frac: u8) -> (frame: Frame)
        ensures
            frame.h_int == h_int,
            frame.h_frac == h_frac,
            frame.t_int == t_int,
            frame.t_frac == t_frac,
            frame.checksum_ok(),
    {
        let total: u16 = h_int as u16 + h_frac as u16 + t_int as u16 + t_frac as u16;
        Frame { h_int, h_frac, t_int, t_frac, checksum: (total % 256) as u8 }
    }

    /// Computes the sum of the four data octets modulo 256.
    pub fn sum(&self) -> (sum: u8)
        ensures
            sum == self.data_sum(),
    {
        let total: u16 = self.h_int as u16 + self.h_frac as u16 + self.t_int as u16
            + self.t_frac as u16;
        (total % 256) as u8
    }

    /// Tells whether the checksum octet agrees with the data octets.
    pub fn verify(&self) -> (ok: bool)
        ensures
            ok == self.checksum_ok(),
    {
        self.sum() == self.checksum
    }

    /// The frame read as one 40-bit number, first octet most significant.
    pub open spec fn word(self) -> int {
        self.h_int * 0x1_0000_0000 + self.h_frac * 0x100_0000 + self.t_int * 0x1_0000
            + self.t_frac * 0x100 + self.checksum
    }

    /// The frame whose octets are the five low octets of `word`.
    pub open spec fn of_word(word: int) -> Frame {
        Frame {
            h_int: (word / 0x1_0000_0000 % 256) as u8,
            h_frac: (word / 0x100_0000 % 256) as u8,
            t_int: (word / 0x1_0000 % 256) as u8,
            t_frac: (word / 0x100 % 256) as u8,
            checksum: (word % 256) as u8,
        }
    }

    /// Bit number `index` on the wire, counted from 0 for the bit that is sent
    /// first (the most significant bit of the first octet) to 39.
    pub open spec fn bit(self, index: int) -> bool {
        (self.word() / (pow2((39 - index) as nat) as int)) % 2 == 1
    }

    /// Splits a 40-bit number into the five octets of a frame.
    pub fn from_word(word: u64) -> (frame: Frame)
        ensures
            frame == Frame::of_word(word as int),
    {
        Frame {
            h_int: (word / 0x1_0000_0000 % 256) as u8,
            h_frac: (word / 0x100_0000 % 256) as u8,
            t_int: (word / 0x1_0000 % 256) as u8,
            t_frac: (word / 0x100 % 256) as u8,
            checksum: (word % 256) as u8,
        }
    }

    /// Joins the five octets into one 40-bit number.
    pub fn to_word(&self) -> (word: u64)
        ensures
            word == self.word(),
            word < 0x100_0000_0000,
    {
        self.h_int as u64 * 0x1_0000_0000 + self.h_frac as u64 * 0x100_0000 + self.t_int as u64
            * 0x1_0000 + self.t_frac as u64 * 0x100 + self.checksum as u64
    }

    /// Bits travel octet by octet, and within each octet the most significant
    /// bit first: bit `index` on the wire is bit `7 - index % 8` of the octet
    /// with number `index / 8`.
    pub proof fn lemma_bit_of_octet(self, index: int)
        requires
            0 <= index < 40,
        ensures
            self.bit(index) == ((self.octets()[index / 8] as int / (pow2((7 - index % 8) as nat)
                as int))
                % 2 == 1),
    {
        self.lemma_word_round_trip();
        let w = self.word() as u64;
        let i = index as u64;
        let up = (39 - i) as u64;
        let down = (7 - i % 8) as u64;
        let octet = self.octets()[index / 8] as u64;
        lemma_u64_shr_is_div(w, up);
        lemma_u64_shr_is_div(octet, down);
        if index < 8 {
            assert((w >> up) % 2 == ((w / 0x1_0000_0000 % 256) >> down) % 2) by (bit_vector)
                requires
                    i < 8,
                    up == 39 - i,
                    down == 7 - i % 8,
                    w < 0x100_0000_0000,
            ;
        } else if index < 16 {
            assert((w >> up) % 2 == ((w / 0x100_0000 % 256) >> down) % 2) by (bit_vector)
                requires
                    8 <= i < 16,
                    up == 39 - i,
                    down == 7 - i % 8,
            ;
        } else if index < 24 {
            assert((w >> up) % 2 == ((w / 0x1_0000 % 256) >> down) % 2) by (bit_vector)
                requires
                    16 <= i < 24,
                    up == 39 - i,
                    down == 7 - i % 8,
            ;
        } else if index < 32 {
            assert((w >> up) % 2 == ((w / 0x100 % 256) >> down) % 2) by (bit_vector)
                requires
                    24 <= i < 32,
                    up == 39 - i,
                    down == 7 - i % 8,
            ;
        } else {
            assert((w >> up) % 2 == ((w % 256) >> down) % 2) by (bit_vector)
                requires
                    32 <= i < 40,
                    up == 39 - i,
                    down == 7 - i % 8,
            ;
        }
    }

    /// Splitting the 40-bit number of a frame gives the frame back.
    pub proof fn lemma_word_round_trip(self)
        ensures
            0 <= self.word() < 0x100_0000_0000,
            Frame::of_word(self.word()) == self,
    {
        let w = self.word();
        let a: int = self.h_int * 0x100_0000 + self.h_frac * 0x1_0000 + self.t_int * 0x100
            + self.t_frac;
        let b: int = self.h_int * 0x1_0000 + self.h_frac * 0x100 + self.t_int;
        let c: int = self.h_int * 0x100 + self.h_frac;
        lemma_fundamental_div_mod_converse(w, 0x100, a, self.checksum as int);
        lemma_fundamental_div_mod_converse(w, 0x1_0000, b, self.t_frac * 0x100 + self.checksum);
        lemma_fundamental_div_mod_converse(
            w,
            0x100_0000,
            c,
            self.t_int * 0x1_0000 + self.t_frac * 0x100 + self.checksum,
        );
        lemma_fundamental_div_mod_converse(
            w,
            0x1_0000_0000,
            self.h_int as int,
            self.h_frac * 0x100_0000 + self.t_int * 0x1_0000 + self.t_frac * 0x100
                + self.checksum,
        );
        lemma_fundamental_div_mod_converse(a, 0x100, b, self.t_frac as int);
        lemma_fundamental_div_mod_converse(b, 0x100, c, self.t_int as int);
        lemma_fundamental_div_mod_converse(c, 0x100, self.h_int as int, self.h_frac as int);
    }
}

} // verus!
