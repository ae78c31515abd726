//! The BCM2835 SD host controller: the card state the driver keeps, and the
//! computations and decisions it makes between register accesses (clock
//! divisor, command responses, card size, block transfer plans).

use vstd::prelude::*;

verus! {

pub const CMD_NEED_APP: u32 = 0x8000_0000;
pub const CMD_RSPNS_48: u32 = 0x0002_0000;
pub const CMD_ERRORS_MASK: u32 = 0xfff9_c004;
pub const CMD_RCA_MASK: u32 = 0xffff_0000;

pub const CMD_GO_IDLE: u32 = 0x0000_0000;
pub const CMD_ALL_SEND_CID: u32 = 0x0201_0000;
pub const CMD_SEND_CSD: u32 = 0x0901_0000;
pub const CMD_SEND_REL_ADDR: u32 = 0x0302_0000;
pub const CMD_CARD_SELECT: u32 = 0x0703_0000;
pub const CMD_SEND_IF_COND: u32 = 0x0802_0000;
pub const CMD_STOP_TRANS: u32 = 0x0c03_0000;
pub const CMD_READ_SINGLE: u32 = 0x1122_0010;
pub const CMD_READ_MULTI: u32 = 0x1222_0032;
pub const CMD_SET_BLOCKCNT: u32 = 0x1702_0000;
pub const CMD_WRITE_SINGLE: u32 = 0x1822_0000;
pub const CMD_WRITE_MULTI: u32 = 0x1922_0022;
pub const CMD_APP_CMD: u32 = 0x3700_0000;
pub const CMD_SET_BUS_WIDTH: u32 = 0x8602_0000;
pub const CMD_SEND_OP_COND: u32 = 0xA902_0000;
pub const CMD_SEND_SCR: u32 = 0xB322_0010;

pub const SR_READ_AVAILABLE: u32 = 0x0000_0800;
pub const SR_WRITE_AVAILABLE: u32 = 0x0000_0400;
pub const SR_DAT_INHIBIT: u32 = 0x0000_0002;
pub const SR_CMD_INHIBIT: u32 = 0x0000_0001;
pub const SR_APP_CMD: u32 = 0x0000_0020;

pub const C1_CLK_EN: u32 = 0x0000_0004;
pub const C1_CLK_STABLE: u32 = 0x0000_0002;

pub const HOST_SPEC_VERSION_OFFSET: u32 = 16;
pub const HOST_SPEC_VERSION_MASK: u32 = 0x00ff_0000;
pub const HOST_SPEC_V3: u32 = 2;
pub const HOST_SPEC_V2: u32 = 1;
pub const HOST_SPEC_V1: u32 = 0;

pub const ACMD41_VOLTAGE: u32 = 0x00ff_8000;
pub const ACMD41_CMD_COMPLETE: u32 = 0x8000_0000;
pub const ACMD41_CMD_CCS: u32 = 0x4000_0000;
pub const ACMD41_ARG_HC: u32 = 0x51ff_8000;

pub const SCR_SD_BUS_WIDTH_4: u32 = 0x0000_0400;
pub const SCR_SUPP_SET_BLKCNT: u32 = 0x0200_0000;
pub const SCR_SUPP_CCS: u32 = 0x0000_0001;

/// The base clock of the controller, in Hz.
pub const BASE_CLOCK: u32 = 41_666_666;

/// The host controller specification version in the slot status and
/// version register.
pub fn host_spec_version(slotisr_ver: u32) -> (r: u32)
    ensures
        r == (slotisr_ver / 65536) % 256,
{
    let v = slotisr_ver;
    assert((v & 0x00ff_0000) >> 16u32 == (v / 65536) % 256) by (bit_vector);
    (slotisr_ver & HOST_SPEC_VERSION_MASK) >> HOST_SPEC_VERSION_OFFSET
}

/// The clock divisor settings for a frequency.
#[derive(Clone, Copy, Debug, PartialEq, Eq, Structural)]
pub struct ClockDivisor {
    /// The divisor.
    pub divisor: u32,
    /// The shift (log2 of the divisor on hosts before version 3).
    pub shift: u32,
    /// The divisor field as it goes into control register 1: the low eight
    /// bits at 15:8, and on version 3 hosts bits 9:8 at 7:6.
    pub field: u32,
}

/// `s` is the number of significant bits of `x`: no bit at `s` or above is
/// set, and bit `s - 1` is.
pub open spec fn is_bit_length(x: u32, s: u32) -> bool {
    &&& s <= 32
    &&& (s == 32 || x >> s == 0)
    &&& (s == 0 || x >> ((s - 1) as u32) == 1)
}

/// The divisor settings for clock frequency `freq`: the divisor `c` of the
/// base clock, and on hosts before version 3 the power of two below it
/// (at most 2^7); at least 2.
pub open spec fn clock_divisor_spec(freq: u32, host_spec_ver: u32, bits: u32) -> ClockDivisor {
    let c = BASE_CLOCK / freq;
    let s0: u32 = if c - 1 == 0 {
        0
    } else if bits - 1 > 7 {
        7
    } else {
        (bits - 1) as u32
    };
    let d0: u32 = if host_spec_ver > HOST_SPEC_V2 {
        c
    } else {
        (1u32 << s0) as u32
    };
    let d: u32 = if d0 <= 2 {
        2
    } else {
        d0
    };
    let s: u32 = if d0 <= 2 {
        0
    } else {
        s0
    };
    let h: u32 = if host_spec_ver > HOST_SPEC_V2 {
        (d & 0x300) >> 2u32
    } else {
        0
    };
    ClockDivisor { divisor: d, shift: s, field: ((d & 0xff) << 8u32) | h }
}

/// Computes the clock divisor for `freq` Hz, as the controller's clock setup
/// does before it writes control register 1.
pub fn clock_divisor(freq: u32, host_spec_ver: u32) -> (r: ClockDivisor)
    requires
        0 < freq <= BASE_CLOCK,
    ensures
        exists|bits: u32|
            is_bit_length((BASE_CLOCK / freq - 1) as u32, bits) && r == clock_divisor_spec(
                freq,
                host_spec_ver,
                bits,
            ),
{
    let c = BASE_CLOCK / freq;
    assert(c >= 1) by (nonlinear_arith)
        requires
            c as int == 41_666_666int / (freq as int),
            0 < freq <= 41_666_666,
    ;
    let x0: u32 = c - 1;
    let mut x: u32 = x0;
    let mut s: u32 = 32;
    let ghost mut bits: u32 = 0;
    if x == 0 {
        s = 0;
        assert(is_bit_length(x0, 0)) by (bit_vector)
            requires
                x0 == 0,
        ;
    } else {
        let ghost xa = x;
        let ghost sa = s;
        if (x & 0xffff_0000) == 0 {
            x = x << 16u32;
            s = s - 16;
        }
        assert(x == x0 << ((32 - s) as u32) && (s == 32 || x0 >> s == 0) && x0 >> ((s - 16) as u32) != 0
            && (s == 32 || s == 16)) by (bit_vector)
            requires
                x0 != 0,
                xa == x0,
                sa == 32,
                (xa & 0xffff_0000 == 0) ==> (x == xa << 16u32 && s == 16),
                (xa & 0xffff_0000 != 0) ==> (x == xa && s == 32),
        ;
        let ghost xb = x;
        let ghost sb = s;
        if (x & 0xff00_0000) == 0 {
            x = x << 8u32;
            s = s - 8;
        }
        assert(x == x0 << ((32 - s) as u32) && (s == 32 || x0 >> s == 0) && x0 >> ((s - 8) as u32) != 0
            && 8 <= s <= 32) by (bit_vector)
            requires
                xb == x0 << ((32 - sb) as u32),
                sb == 32 || x0 >> sb == 0,
                x0 >> ((sb - 16) as u32) != 0,
                sb == 32 || sb == 16,
                (xb & 0xff00_0000 == 0) ==> (x == xb << 8u32 && s == sb - 8),
                (xb & 0xff00_0000 != 0) ==> (x == xb && s == sb),
        ;
        let ghost xc = x;
        let ghost sc = s;
        if (x & 0xf000_0000) == 0 {
            x = x << 4u32;
            s = s - 4;
        }
        assert(x == x0 << ((32 - s) as u32) && (s == 32 || x0 >> s == 0) && x0 >> ((s - 4) as u32) != 0
            && 4 <= s <= 32) by (bit_vector)
            requires
                xc == x0 << ((32 - sc) as u32),
                sc == 32 || x0 >> sc == 0,
                x0 >> ((sc - 8) as u32) != 0,
                8 <= sc <= 32,
                (xc & 0xf000_0000 == 0) ==> (x == xc << 4u32 && s == sc - 4),
                (xc & 0xf000_0000 != 0) ==> (x == xc && s == sc),
        ;
        let ghost xd = x;
        let ghost sd = s;
        if (x & 0xc000_0000) == 0 {
            x = x << 2u32;
            s = s - 2;
        }
        assert(x == x0 << ((32 - s) as u32) && (s == 32 || x0 >> s == 0) && x0 >> ((s - 2) as u32) != 0
            && 2 <= s <= 32) by (bit_vector)
            requires
                xd == x0 << ((32 - sd) as u32),
                sd == 32 || x0 >> sd == 0,
                x0 >> ((sd - 4) as u32) != 0,
                4 <= sd <= 32,
                (xd & 0xc000_0000 == 0) ==> (x == xd << 2u32 && s == sd - 2),
                (xd & 0xc000_0000 != 0) ==> (x == xd && s == sd),
        ;
        let ghost xe = x;
        let ghost se = s;
        if (x & 0x8000_0000) == 0 {
            x = x << 1u32;
            s = s - 1;
        }
        assert(is_bit_length(x0, s) && 1 <= s) by (bit_vector)
            requires
                xe == x0 << ((32 - se) as u32),
                se == 32 || x0 >> se == 0,
                x0 >> ((se - 2) as u32) != 0,
                2 <= se <= 32,
                (xe & 0x8000_0000 == 0) ==> (x == xe << 1u32 && s == se - 1),
                (xe & 0x8000_0000 != 0) ==> (x == xe && s == se),
        ;
        proof {
            bits = s;
        }
        if s > 0 {
            s = s - 1;
        }
        if s > 7 {
            s = 7;
        }
        assert(s == (if bits - 1 > 7 { 7 } else { bits - 1 }));
    }
    assert(is_bit_length(x0, bits));
    let mut d: u32;
    if host_spec_ver > HOST_SPEC_V2 {
        d = c;
    } else {
        assert(s <= 7);
        d = 1u32 << s;
    }
    if d <= 2 {
        d = 2;
        s = 0;
    }
    let mut h: u32 = 0;
    if host_spec_ver > HOST_SPEC_V2 {
        h = (d & 0x300) >> 2u32;
    }
    let field = ((d & 0xff) << 8u32) | h;
    let r = ClockDivisor { divisor: d, shift: s, field };
    assert(r == clock_divisor_spec(freq, host_spec_ver, bits));
    r
}

/// Why a card operation failed.
#[derive(Clone, Copy, Debug, PartialEq, Eq, Structural)]
pub enum SdError {
    /// The controller or the card answered with an error, or not in time.
    Invalid,
}

/// What the driver knows of the card behind the controller.
#[derive(Clone, Copy, Debug)]
pub struct SdHostCtrl {
    pub host_spec_ver: u32,
    pub cid: [u32; 4],
    pub csd: [u32; 4],
    /// Relative card address.
    pub rca: u32,
    pub scr: [u32; 2],
    pub ocr: u32,
    pub size: u64,
}

/// The size in bytes of a card, from its OCR and its CSD register: in the
/// high-capacity layout (CCS set in the OCR) C_SIZE has 22 bits and the
/// multiplier is 8; else C_SIZE has 12 bits and C_SIZE_MULT 3.
pub open spec fn card_size_spec(ocr: u32, csd1: u32, csd2: u32) -> int {
    let ccs = (ocr / 0x4000_0000) % 2 == 1;
    let csize: int = if ccs {
        (csd1 % 64) * 65536 + csd2 / 65536
    } else {
        (csd1 % 1024) * 4 + csd2 / 0x4000_0000
    };
    let cmult: int = if ccs {
        8
    } else {
        ((csd2 / 32768) % 8) as int
    };
    (csize + 1) * vstd::arithmetic::power2::pow2((cmult + 2) as nat) * 512
}

impl SdHostCtrl {
    pub fn new() -> (r: Self)
        ensures
            r.host_spec_ver == 0,
            r.cid@ == seq![0u32, 0u32, 0u32, 0u32],
            r.csd@ == seq![0u32, 0u32, 0u32, 0u32],
            r.rca == 0,
            r.scr@ == seq![0u32, 0u32],
            r.ocr == 0,
            r.size == 0,
    {
        let r = SdHostCtrl {
            host_spec_ver: 0,
            cid: [0u32; 4],
            csd: [0u32; 4],
            rca: 0,
            scr: [0u32; 2],
            ocr: 0,
            size: 0,
        };
        assert(r.cid@ =~= seq![0u32, 0u32, 0u32, 0u32]);
        assert(r.scr@ =~= seq![0u32, 0u32]);
        r
    }

    /// The APP_CMD that must go before `code`, where `code` is an
    /// application command: with a 48-bit response once the card has an
    /// address.
    pub fn app_command_prefix(&self, code: u32) -> (r: Option<u32>)
        ensures
            code >= CMD_NEED_APP ==> r == Some(if self.rca != 0 { 0x3702_0000u32 } else { CMD_APP_CMD }),
            code < CMD_NEED_APP ==> r is None,
    {
        let c = code;
        assert((c & 0x8000_0000 != 0) == (c >= 0x8000_0000)) by (bit_vector);
        if code & CMD_NEED_APP != 0 {
            let pre = if self.rca != 0 {
                assert(0x3700_0000u32 | 0x0002_0000u32 == 0x3702_0000u32) by (bit_vector);
                CMD_APP_CMD | CMD_RSPNS_48
            } else {
                CMD_APP_CMD
            };
            Some(pre)
        } else {
            None
        }
    }

    /// Decodes the response of command `code` (without its application
    /// flag), sent with `arg`, from the four response registers, and keeps
    /// the card identification and specific data.
    pub fn finish_command(&mut self, code: u32, arg: u32, resp: [u32; 4]) -> (r: Result<u32, SdError>)
        ensures
            code == CMD_GO_IDLE || code == CMD_APP_CMD ==> r == Ok::<u32, SdError>(0),
            code == 0x3702_0000u32 ==> r == Ok::<u32, SdError>(resp@[0] & SR_APP_CMD),
            code == CMD_SEND_IF_COND ==> r == (if resp@[0] == arg { Ok::<u32, SdError>(0) } else { Err::<u32, SdError>(SdError::Invalid) }),
            code == CMD_ALL_SEND_CID ==> r == Ok::<u32, SdError>(resp@[0]) && final(self).cid@ == resp@,
            code == CMD_SEND_CSD ==> {
                &&& r == Ok::<u32, SdError>(resp@[0])
                &&& final(self).csd@[0] == (resp@[3] << 8u32) | (resp@[2] >> 24u32)
                &&& final(self).csd@[1] == (resp@[2] << 8u32) | (resp@[1] >> 24u32)
                &&& final(self).csd@[2] == (resp@[1] << 8u32) | (resp@[0] >> 24u32)
                &&& final(self).csd@[3] == resp@[0] << 8u32
            },
            code == CMD_SEND_REL_ADDR ==> r == (if rel_addr_errors(resp@[0]) != 0 {
                Err::<u32, SdError>(SdError::Invalid)
            } else {
                Ok::<u32, SdError>(resp@[0] & CMD_RCA_MASK)
            }),
            code != CMD_GO_IDLE && code != CMD_APP_CMD && code != 0x3702_0000u32 && code
                != CMD_SEND_OP_COND && code != CMD_SEND_IF_COND && code != CMD_ALL_SEND_CID && code
                != CMD_SEND_CSD && code != CMD_SEND_REL_ADDR ==> r == Ok::<u32, SdError>(resp[0] & CMD_ERRORS_MASK),
            code == CMD_SEND_OP_COND ==> r == Ok::<u32, SdError>(resp@[0]),
            code != CMD_ALL_SEND_CID ==> final(self).cid == old(self).cid,
            code != CMD_SEND_CSD ==> final(self).csd == old(self).csd,
            final(self).rca == old(self).rca,
            final(self).scr == old(self).scr,
            final(self).ocr == old(self).ocr,
            final(self).size == old(self).size,
            final(self).host_spec_ver == old(self).host_spec_ver,
    {
        let reg_val = resp[0];
        assert(0x3700_0000u32 | 0x0002_0000u32 == 0x3702_0000u32) by (bit_vector);
        if code == CMD_GO_IDLE || code == CMD_APP_CMD {
            Ok(0)
        } else if code == (CMD_APP_CMD | CMD_RSPNS_48) {
            Ok(reg_val & SR_APP_CMD)
        } else if code == CMD_SEND_OP_COND {
            Ok(reg_val)
        } else if code == CMD_SEND_IF_COND {
            if reg_val == arg {
                Ok(0)
            } else {
                Err(SdError::Invalid)
            }
        } else if code == CMD_ALL_SEND_CID {
            self.cid = resp;
            Ok(reg_val)
        } else if code == CMD_SEND_CSD {
            let tmp0 = resp[0];
            let tmp1 = resp[1];
            let tmp2 = resp[2];
            let tmp3 = resp[3];
            self.csd = [tmp3 << 8u32 | tmp2 >> 24u32, tmp2 << 8u32 | tmp1 >> 24u32, tmp1 << 8u32 | tmp0 >> 24u32, tmp0 << 8u32];
            Ok(reg_val)
        } else if code == CMD_SEND_REL_ADDR {
            let err = rel_addr_error_bits(reg_val);
            if err != 0 {
                Err(SdError::Invalid)
            } else {
                Ok(reg_val & CMD_RCA_MASK)
            }
        } else {
            Ok(reg_val & CMD_ERRORS_MASK)
        }
    }

    /// The card size in bytes from the OCR and the CSD that the driver holds.
    pub fn card_size(&self) -> (r: u64)
        ensures
            r == card_size_spec(self.ocr, self.csd@[1], self.csd@[2]),
    {
        let ocr = self.ocr;
        let csd1 = self.csd[1];
        let csd2 = self.csd[2];
        assert((ocr & 0x4000_0000 != 0) == ((ocr / 0x4000_0000) % 2 == 1)) by (bit_vector);
        if (ocr & ACMD41_CMD_CCS) != 0 {
            assert((csd1 & 0x3f) << 16u32 | (csd2 & 0xffff_0000) >> 16u32 == (csd1 % 64) * 65536 + csd2 / 65536)
                by (bit_vector);
            let csize = ((csd1 & 0x3f) << 16u32 | (csd2 & 0xffff_0000) >> 16u32) as u64;
            proof {
                vstd::arithmetic::power2::lemma2_to64();
            }
            assert(csize < 4194304);
            let c1 = csize + 1;
            assert((c1 << 10u64) == c1 * 1024) by (bit_vector)
                requires
                    c1 <= 4194304,
            ;
            (c1 << 10u64) * 512
        } else {
            assert((csd1 & 0x3ff) << 2u32 | (csd2 & 0xc000_0000) >> 30u32 == (csd1 % 1024) * 4 + csd2
                / 0x4000_0000) by (bit_vector);
            assert((csd2 & 0x0003_8000) >> 15u32 == (csd2 / 32768) % 8) by (bit_vector);
            let csize = ((csd1 & 0x3ff) << 2u32 | (csd2 & 0xc000_0000) >> 30u32) as u64;
            let cmult = ((csd2 & 0x0003_8000) >> 15u32) as u64;
            assert(csize < 4096 && cmult < 8);
            proof {
                vstd::arithmetic::power2::lemma2_to64();
                vstd::arithmetic::power2::lemma_pow2_strictly_increases((cmult + 2) as nat, 10);
                assert((csize + 1) * vstd::arithmetic::power2::pow2((cmult + 2) as nat) <= 4096 * 1024)
                    by (nonlinear_arith)
                    requires
                        csize + 1 <= 4096,
                        vstd::arithmetic::power2::pow2((cmult + 2) as nat) <= 1024,
                ;
                vstd::bits::lemma_u64_shl_is_mul((csize + 1) as u64, (cmult + 2) as u64);
            }
            ((csize + 1) << (cmult + 2)) * 512
        }
    }
}

/// The error bits of a SEND_RELATIVE_ADDR response, moved to where they are
/// in a card status and masked by the error mask.
pub open spec fn rel_addr_errors(reg_val: u32) -> u32 {
    ((reg_val & 0x1fffu32) | ((reg_val & 0x2000u32) << 6u32) | ((reg_val & 0x4000u32) << 8u32) | ((
    reg_val & 0x8000u32) << 8u32)) & CMD_ERRORS_MASK
}

fn rel_addr_error_bits(reg_val: u32) -> (r: u32)
    ensures
        r == rel_addr_errors(reg_val),
{
    let mut err = reg_val & 0x1fff;
    err = err | ((reg_val & 0x2000) << 6u32);
    err = err | ((reg_val & 0x4000) << 8u32);
    err = err | ((reg_val & 0x8000) << 8u32);
    err & CMD_ERRORS_MASK
}

/// How long (in milliseconds) to wait after issuing command `code` before
/// polling for its completion.
pub fn command_delay_ms(code: u32) -> (r: u32)
    ensures
        r == (if code == CMD_SEND_OP_COND {
            1000u32
        } else if code == CMD_SEND_IF_COND || code == CMD_APP_CMD {
            200u32
        } else {
            0u32
        }),
{
    if code == CMD_SEND_OP_COND {
        1000
    } else if code == CMD_SEND_IF_COND || code == CMD_APP_CMD {
        200
    } else {
        0
    }
}

/// The outcome of the SEND_OP_COND polling in card initialisation.
#[derive(Clone, Copy, Debug, PartialEq, Eq, Structural)]
pub enum OpCondError {
    /// The card did not report completion in time.
    Timeout,
    /// The card reported no usable voltage.
    NoVoltage,
}

/// Judges the last SEND_OP_COND response `reg_val`, with `cnt` tries left,
/// and gives the CCS flag for the SCR where the card is ready.
pub fn op_cond_result(reg_val: u32, cnt: i32) -> (r: Result<u32, OpCondError>)
    ensures
        reg_val < ACMD41_CMD_COMPLETE || cnt <= 0 ==> r == Err::<u32, OpCondError>(OpCondError::Timeout),
        !(reg_val < ACMD41_CMD_COMPLETE || cnt <= 0) && (reg_val / 32768) % 512 == 0 ==> r == Err::<
            u32,
            OpCondError,
        >(OpCondError::NoVoltage),
        !(reg_val < ACMD41_CMD_COMPLETE || cnt <= 0) && (reg_val / 32768) % 512 != 0 ==> r == Ok::<
            u32,
            OpCondError,
        >(if (reg_val / 0x4000_0000) % 2 == 1 { SCR_SUPP_CCS } else { 0u32 }),
{
    let v = reg_val;
    assert((v & 0x8000_0000 == 0) == (v < 0x8000_0000)) by (bit_vector);
    assert((v & 0x00ff_8000 == 0) == ((v / 32768) % 512 == 0)) by (bit_vector);
    assert((v & 0x4000_0000 != 0) == ((v / 0x4000_0000) % 2 == 1)) by (bit_vector);
    if (reg_val & ACMD41_CMD_COMPLETE) == 0 || cnt <= 0 {
        return Err(OpCondError::Timeout);
    }
    if (reg_val & ACMD41_VOLTAGE) == 0 {
        return Err(OpCondError::NoVoltage);
    }
    if (reg_val & ACMD41_CMD_CCS) != 0 {
        Ok(SCR_SUPP_CCS)
    } else {
        Ok(0)
    }
}

/// How a block transfer of `num` blocks at `lba` is issued.
#[derive(Clone, Copy, Debug)]
pub struct BlockTransferPlan {
    /// Blocks to move (at least one).
    pub num: u32,
    /// Send SET_BLOCK_COUNT with `num` first.
    pub set_block_count: bool,
    /// The block size and count register value for the transfer.
    pub blksizecnt: u32,
    /// The command that starts a block-addressed transfer, with its argument.
    pub start: Option<(u32, u32)>,
    /// Each block is addressed by a command of its own (byte-addressed cards).
    pub per_block: bool,
    /// Send STOP_TRANSMISSION at the end.
    pub stop: bool,
}

/// Plans a read (`write` false) or write of `num` blocks at `lba` on a card
/// with SCR word `scr0`. A count of zero moves one block.
pub fn block_transfer_plan(scr0: u32, lba: u32, num: u32, write: bool) -> (r: BlockTransferPlan)
    ensures
        r.num == (if num < 1 { 1 } else { num }),
        ({
            let ccs = scr0 % 2 == 1;
            let blkcnt = (scr0 / 0x0200_0000) % 2 == 1;
            &&& r.set_block_count == (ccs && r.num > 1 && blkcnt)
            &&& r.blksizecnt == (if ccs { ((r.num * 65536) % 0x1_0000_0000) as u32 | 512u32 } else { 0x1_0200u32 })
            &&& r.start == (if !ccs {
                None
            } else if r.num == 1 {
                Some((if write { CMD_WRITE_SINGLE } else { CMD_READ_SINGLE }, lba))
            } else {
                Some((if write { CMD_WRITE_MULTI } else { CMD_READ_MULTI }, lba))
            })
            &&& r.per_block == !ccs
            &&& r.stop == (r.num > 1 && !blkcnt && ccs)
        }),
{
    let num = if num < 1 { 1 } else { num };
    let v = scr0;
    assert((v & 1 != 0) == (v % 2 == 1)) by (bit_vector);
    assert((v & 0x0200_0000 != 0) == ((v / 0x0200_0000) % 2 == 1)) by (bit_vector);
    let ccs = (scr0 & SCR_SUPP_CCS) != 0;
    let blkcnt = (scr0 & SCR_SUPP_SET_BLKCNT) != 0;
    assert((num << 16u32) | 512u32 == ((num * 65536) % 0x1_0000_0000) as u32 | 512u32) by (bit_vector);
    assert((1u32 << 16u32) | 512u32 == 0x1_0200u32) by (bit_vector);
    let blksizecnt = if ccs { (num << 16u32) | 512 } else { (1u32 << 16u32) | 512 };
    let start = if !ccs {
        None
    } else if num == 1 {
        Some((if write { CMD_WRITE_SINGLE } else { CMD_READ_SINGLE }, lba))
    } else {
        Some((if write { CMD_WRITE_MULTI } else { CMD_READ_MULTI }, lba))
    };
    BlockTransferPlan {
        num,
        set_block_count: ccs && num > 1 && blkcnt,
        blksizecnt,
        start,
        per_block: !ccs,
        stop: num > 1 && !blkcnt && ccs,
    }
}

/// The byte address of block `cnt` of a transfer at `lba` on a card that is
/// addressed in bytes.
pub fn byte_address(lba: u32, cnt: u32) -> (r: u32)
    requires
        (lba + cnt) * 512 <= u32::MAX,
    ensures
        r == (lba + cnt) * 512,
{
    (lba + cnt) * 512
}

/// The number of blocks in a buffer of `len` bytes, or `None` where the
/// length is not a multiple of the block size.
pub fn buffer_blocks(len: usize) -> (r: Option<usize>)
    ensures
        len % 512 != 0 <==> r is None,
        r matches Some(n) ==> n == len / 512,
{
    if len % 512 != 0 {
        None
    } else {
        Some(len / 512)
    }
}

} // verus!
