//! The serial modem: a dial-up state machine, 64-byte receive and send
//! buffers, and memory-mapped registers (data at 0x80, status at 0x81,
//! command at 0x82).
//!
//! The line noise is random: the caller draws, for each tick, whether the
//! line is clear, and hands that in.

use vstd::prelude::*;
use std::collections::VecDeque;
use crate::kernel::{QuatByte, QuatKernel, texts, bounded_push};
use crate::text::{hex_pad, push_radix};
use crate::quat_pic::QuatPIC;

verus! {

/// The modem's connection.
#[derive(Clone, Copy, Debug, PartialEq, Eq, Structural)]
pub enum ModemState {
    Disconnected,
    /// Dialing; the number counts the ticks spent dialing.
    Dialing(u8),
    Connected,
}

/// A packet on the line.
pub struct QuatPacket {
    pub sender_id: u8,
    pub receiver_id: u8,
    pub payload: Vec<u8>,
}

/// The modem.  Each buffer holds at most 64 bytes.
pub struct QuatNET {
    pub state: ModemState,
    pub baud_rate_ticks: u32,
    pub tick_counter: u32,
    pub rx_buffer: VecDeque<u8>,
    pub tx_buffer: VecDeque<u8>,
    pub terminal_log: Vec<String>,
    pub input_text: String,
    pub total_bytes_sent: usize,
    pub total_bytes_received: usize,
    pub echo_mode: bool,
}

/// `q` with the bytes of `b` appended while it holds fewer than `cap`.
pub open spec fn fill_up(q: Seq<u8>, b: Seq<u8>, cap: nat) -> Seq<u8> {
    if q.len() >= cap {
        q
    } else if b.len() <= cap - q.len() {
        q + b
    } else {
        q + b.take(cap - q.len())
    }
}

/// The line logged when a lost byte is detected.
pub open spec fn parity_message(b: u8) -> Seq<char> {
    "⚠️ PARITY ERROR: Byte 0x"@ + hex_pad(b as nat, 2) + " lost!"@
}

/// The line logged for command `cmd`, if it has one.
pub open spec fn command_message(cmd: u8) -> Option<Seq<char>> {
    if cmd == 1 {
        Some("ATDT 555-QUAT... Dialing server..."@)
    } else if cmd == 2 {
        Some("ATH0... Line disconnected (NO CARRIER)."@)
    } else if cmd == 3 {
        Some("Buffers flushed."@)
    } else {
        None
    }
}

/// The status register: bit 0 a byte waits to be read, bit 1 there is
/// room to send, bit 2 carrier.
pub open spec fn status_byte(rx_len: nat, tx_len: nat, connected: bool) -> u8 {
    ((if rx_len > 0 {
        1int
    } else {
        0
    }) + (if tx_len < 64 {
        2int
    } else {
        0
    }) + (if connected {
        4int
    } else {
        0
    })) as u8
}

/// The connection after command `cmd` (see `execute_command`).
pub open spec fn command_state(s: ModemState, cmd: u8) -> ModemState {
    if cmd == 1 {
        ModemState::Dialing(0)
    } else if cmd == 2 {
        ModemState::Disconnected
    } else {
        s
    }
}

/// One tick of dialing: after more than 50 ticks the line connects.
pub open spec fn dial_step(s: ModemState) -> ModemState {
    match s {
        ModemState::Dialing(c) => if c + 1 > 50 {
            ModemState::Connected
        } else {
            ModemState::Dialing((c + 1) as u8)
        },
        _ => s,
    }
}

/// The line logged when the line connects.
pub open spec fn connect_message() -> Seq<char> {
    "CONNECT 9600 BAUD / QuatNET Server Online."@
}

/// The log after command `cmd`.
pub open spec fn command_log(log: Seq<Seq<char>>, cmd: u8) -> Seq<Seq<char>> {
    match command_message(cmd) {
        Some(m) => bounded_push(log, m, 100),
        None => log,
    }
}

/// A tick of the modem in state `n` with command byte `cmd` stays within
/// the counters' and the dial counter's range.
pub open spec fn tick_in_range(n: QuatNET, cmd: u8) -> bool {
    let st = command_state(n.state, cmd);
    &&& (st matches ModemState::Dialing(c) ==> c < 255)
    &&& (st == ModemState::Connected ==> n.tick_counter < u32::MAX && n.total_bytes_sent < usize::MAX
        && n.total_bytes_received < usize::MAX)
}

impl QuatNET {
    /// Disconnected, 10 ticks a byte, empty buffers, loopback on, and the
    /// greeting in the log.
    pub fn new() -> (n: QuatNET)
        ensures
            n.state == ModemState::Disconnected,
            n.baud_rate_ticks == 10,
            n.tick_counter == 0,
            n.rx_buffer@.len() == 0,
            n.tx_buffer@.len() == 0,
            texts(n.terminal_log@) == seq!["[QuatNET] Serial Interface v1.0 Ready."@],
            n.input_text@.len() == 0,
            n.total_bytes_sent == 0,
            n.total_bytes_received == 0,
            n.echo_mode,
    {
        let mut log: Vec<String> = Vec::new();
        log.push(String::from_str("[QuatNET] Serial Interface v1.0 Ready."));
        assert(texts(log@) =~= seq!["[QuatNET] Serial Interface v1.0 Ready."@]);
        QuatNET {
            state: ModemState::Disconnected,
            baud_rate_ticks: 10,
            tick_counter: 0,
            rx_buffer: VecDeque::with_capacity(64),
            tx_buffer: VecDeque::with_capacity(64),
            terminal_log: log,
            input_text: String::new(),
            total_bytes_sent: 0,
            total_bytes_received: 0,
            echo_mode: true,
        }
    }

    /// Adds a line to the log, which keeps its last 100 lines.
    pub fn log(&mut self, msg: &str)
        ensures
            texts(final(self).terminal_log@) == bounded_push(texts(old(self).terminal_log@), msg@, 100),
            final(self).state == old(self).state,
            final(self).baud_rate_ticks == old(self).baud_rate_ticks,
            final(self).tick_counter == old(self).tick_counter,
            final(self).rx_buffer@ == old(self).rx_buffer@,
            final(self).tx_buffer@ == old(self).tx_buffer@,
            final(self).input_text == old(self).input_text,
            final(self).total_bytes_sent == old(self).total_bytes_sent,
            final(self).total_bytes_received == old(self).total_bytes_received,
            final(self).echo_mode == old(self).echo_mode,
    {
        let ghost before = texts(self.terminal_log@);
        self.terminal_log.push(String::from_str(msg));
        assert(texts(self.terminal_log@) =~= before.push(msg@));
        if self.terminal_log.len() > 100 {
            self.terminal_log.remove(0);
            assert(texts(self.terminal_log@) =~= before.push(msg@).drop_first());
        }
    }

    /// Queues the bytes of `text` for sending; bytes that find the send
    /// buffer full (64) are dropped.
    pub fn send_string(&mut self, text: &str)
        ensures
            final(self).tx_buffer@ == fill_up(old(self).tx_buffer@, vstd::utf8::encode_utf8(text@), 64),
            final(self).state == old(self).state,
            final(self).baud_rate_ticks == old(self).baud_rate_ticks,
            final(self).tick_counter == old(self).tick_counter,
            final(self).rx_buffer@ == old(self).rx_buffer@,
            final(self).terminal_log == old(self).terminal_log,
            final(self).input_text == old(self).input_text,
            final(self).total_bytes_sent == old(self).total_bytes_sent,
            final(self).total_bytes_received == old(self).total_bytes_received,
            final(self).echo_mode == old(self).echo_mode,
    {
        let bytes = text.as_bytes();
        let ghost q0 = self.tx_buffer@;
        let mut i: usize = 0;
        while i < bytes.len()
            invariant
                i <= bytes@.len(),
                bytes@ == vstd::utf8::encode_utf8(text@),
                self.tx_buffer@ == fill_up(q0, bytes@.take(i as int), 64),
                self.state == old(self).state,
                self.baud_rate_ticks == old(self).baud_rate_ticks,
                self.tick_counter == old(self).tick_counter,
                self.rx_buffer@ == old(self).rx_buffer@,
                self.terminal_log == old(self).terminal_log,
                self.input_text == old(self).input_text,
                self.total_bytes_sent == old(self).total_bytes_sent,
                self.total_bytes_received == old(self).total_bytes_received,
                self.echo_mode == old(self).echo_mode,
            decreases bytes@.len() - i,
        {
            let ghost pre = self.tx_buffer@;
            if self.tx_buffer.len() < 64 {
                self.tx_buffer.push_back(bytes[i]);
            }
            proof {
                let t = bytes@.take(i as int);
                let t1 = bytes@.take(i + 1);
                assert(t1 =~= t.push(bytes@[i as int]));
                if q0.len() < 64 {
                    if t.len() <= 64 - q0.len() {
                        if t1.len() <= 64 - q0.len() {
                            assert(q0 + t1 =~= (q0 + t).push(bytes@[i as int]));
                        } else {
                            assert(t1.take(64 - q0.len()) =~= t);
                        }
                    } else {
                        assert(t1.take(64 - q0.len()) =~= t.take(64 - q0.len()));
                    }
                }
            }
            i = i + 1;
        }
        assert(bytes@.take(bytes@.len() as int) =~= bytes@);
    }

    /// Runs modem command `cmd`: 1 dials, 2 hangs up, 3 empties both
    /// buffers; others do nothing.  Each logs its line.
    pub fn execute_command(&mut self, cmd: u8)
        ensures
            final(self).state == (if cmd == 1 {
                ModemState::Dialing(0)
            } else if cmd == 2 {
                ModemState::Disconnected
            } else {
                old(self).state
            }),
            cmd == 3 ==> final(self).rx_buffer@.len() == 0 && final(self).tx_buffer@.len() == 0,
            cmd != 3 ==> final(self).rx_buffer@ == old(self).rx_buffer@ && final(self).tx_buffer@ == old(
                self,
            ).tx_buffer@,
            texts(final(self).terminal_log@) == (match command_message(cmd) {
                Some(m) => bounded_push(texts(old(self).terminal_log@), m, 100),
                None => texts(old(self).terminal_log@),
            }),
            final(self).baud_rate_ticks == old(self).baud_rate_ticks,
            final(self).tick_counter == old(self).tick_counter,
            final(self).input_text == old(self).input_text,
            final(self).total_bytes_sent == old(self).total_bytes_sent,
            final(self).total_bytes_received == old(self).total_bytes_received,
            final(self).echo_mode == old(self).echo_mode,
    {
        if cmd == 1 {
            self.state = ModemState::Dialing(0);
            self.log("ATDT 555-QUAT... Dialing server...");
        } else if cmd == 2 {
            self.state = ModemState::Disconnected;
            self.log("ATH0... Line disconnected (NO CARRIER).");
        } else if cmd == 3 {
            self.rx_buffer.clear();
            self.tx_buffer.clear();
            self.log("Buffers flushed.");
        }
    }

    /// Receives `byte`: when the receive buffer has room it is queued,
    /// counted, put in the data register and the modem's line (IRQ 3) is
    /// raised; otherwise it is lost.
    fn push_rx(&mut self, byte: u8, kernel: &mut QuatKernel, pic: &mut QuatPIC)
        requires
            old(self).rx_buffer@.len() < 64 ==> old(self).total_bytes_received < usize::MAX,
        ensures
            old(self).rx_buffer@.len() >= 64 ==> *final(self) == *old(self) && *final(kernel) == *old(kernel)
                && *final(pic) == *old(pic),
            old(self).rx_buffer@.len() < 64 ==> {
                &&& final(self).rx_buffer@ == old(self).rx_buffer@.push(byte)
                &&& final(self).total_bytes_received == old(self).total_bytes_received + 1
                &&& final(pic).irq_pending == old(pic).irq_pending | 8u8
                &&& final(kernel).ram@ == old(kernel).ram@.update(0x80, QuatByte(byte)).update(
                    0x72,
                    QuatByte(final(pic).irq_pending),
                )
                &&& final(pic).irq_enabled == old(pic).irq_enabled
                &&& final(pic).vector_table == old(pic).vector_table
                &&& final(pic).master_enable == old(pic).master_enable
                &&& final(pic).last_serviced_irq == old(pic).last_serviced_irq
                &&& final(pic).pad == old(pic).pad
                &&& final(kernel).pc == old(kernel).pc
                &&& final(kernel).reg_a == old(kernel).reg_a
                &&& final(kernel).reg_b == old(kernel).reg_b
                &&& final(kernel).is_running == old(kernel).is_running
                &&& final(kernel).vram == old(kernel).vram
                &&& final(kernel).logs == old(kernel).logs
                &&& final(self).state == old(self).state
                &&& final(self).baud_rate_ticks == old(self).baud_rate_ticks
                &&& final(self).tick_counter == old(self).tick_counter
                &&& final(self).tx_buffer@ == old(self).tx_buffer@
                &&& final(self).terminal_log == old(self).terminal_log
                &&& final(self).input_text == old(self).input_text
                &&& final(self).total_bytes_sent == old(self).total_bytes_sent
                &&& final(self).echo_mode == old(self).echo_mode
            },
    {
        if self.rx_buffer.len() < 64 {
            self.rx_buffer.push_back(byte);
            self.total_bytes_received += 1;
            kernel.ram[0x80] = QuatByte(byte);
            pic.trigger_irq(3, kernel);
            assert(1u8 << 3u8 == 8u8) by (bit_vector);
        }
    }
}

impl QuatNET {
    /// One modem tick.  A command in register 0x82 runs and the register is
    /// cleared.  While dialing, the tick only counts.  When connected, every
    /// `baud_rate_ticks` ticks the oldest byte of the send buffer goes out;
    /// in loopback mode it comes back when `line_clear` (the caller's draw
    /// against the noise) and is otherwise logged as lost.  Then the status
    /// register 0x81 is updated and a byte the program left in 0x80 is
    /// taken for sending when there is room.
    pub fn tick(&mut self, kernel: &mut QuatKernel, pic: &mut QuatPIC, line_clear: bool)
        requires
            tick_in_range(*old(self), old(kernel).ram@[0x82].0),
        ensures
            ({
                let cmd = old(kernel).ram@[0x82].0;
                let st = command_state(old(self).state, cmd);
                let rx1 = if cmd == 3 {
                    Seq::<u8>::empty()
                } else {
                    old(self).rx_buffer@
                };
                let tx1 = if cmd == 3 {
                    Seq::<u8>::empty()
                } else {
                    old(self).tx_buffer@
                };
                let log1 = command_log(texts(old(self).terminal_log@), cmd);
                let ram1 = old(kernel).ram@.update(0x82, QuatByte(0));
                if st is Dialing {
                    &&& final(self).state == dial_step(st)
                    &&& texts(final(self).terminal_log@) == (if dial_step(st) == ModemState::Connected {
                        bounded_push(log1, connect_message(), 100)
                    } else {
                        log1
                    })
                    &&& final(self).rx_buffer@ == rx1
                    &&& final(self).tx_buffer@ == tx1
                    &&& final(kernel).ram@ == ram1
                    &&& final(self).tick_counter == old(self).tick_counter
                    &&& final(self).total_bytes_sent == old(self).total_bytes_sent
                    &&& final(self).total_bytes_received == old(self).total_bytes_received
                    &&& final(pic).irq_pending == old(pic).irq_pending
                } else if st != ModemState::Connected {
                    &&& final(self).state == st
                    &&& texts(final(self).terminal_log@) == log1
                    &&& final(self).rx_buffer@ == rx1
                    &&& final(self).tx_buffer@ == tx1
                    &&& final(kernel).ram@ == ram1
                    &&& final(self).tick_counter == old(self).tick_counter
                    &&& final(self).total_bytes_sent == old(self).total_bytes_sent
                    &&& final(self).total_bytes_received == old(self).total_bytes_received
                    &&& final(pic).irq_pending == old(pic).irq_pending
                } else {
                    let tc = old(self).tick_counter + 1;
                    let fires = tc >= old(self).baud_rate_ticks;
                    let sends = fires && tx1.len() > 0;
                    let b = tx1[0];
                    let tx2 = if sends {
                        tx1.drop_first()
                    } else {
                        tx1
                    };
                    let lost = sends && old(self).echo_mode && !line_clear;
                    let rx_ok = sends && old(self).echo_mode && line_clear && rx1.len() < 64;
                    let rx2 = if rx_ok {
                        rx1.push(b)
                    } else {
                        rx1
                    };
                    let pending = if rx_ok {
                        old(pic).irq_pending | 8u8
                    } else {
                        old(pic).irq_pending
                    };
                    let ram2 = if rx_ok {
                        ram1.update(0x80, QuatByte(b)).update(0x72, QuatByte(pending))
                    } else {
                        ram1
                    };
                    let ram3 = ram2.update(0x81, QuatByte(status_byte(rx2.len(), tx2.len(), true)));
                    let mmio = ram3[0x80].0;
                    let takes = mmio != 0 && tx2.len() < 64;
                    &&& final(self).state == ModemState::Connected
                    &&& final(self).tick_counter == (if fires {
                        0
                    } else {
                        tc
                    })
                    &&& final(self).total_bytes_sent == old(self).total_bytes_sent + (if sends {
                        1int
                    } else {
                        0
                    })
                    &&& final(self).total_bytes_received == old(self).total_bytes_received + (if rx_ok {
                        1int
                    } else {
                        0
                    })
                    &&& final(self).rx_buffer@ == rx2
                    &&& final(self).tx_buffer@ == (if takes {
                        tx2.push(mmio)
                    } else {
                        tx2
                    })
                    &&& final(kernel).ram@ == (if takes {
                        ram3.update(0x80, QuatByte(0))
                    } else {
                        ram3
                    })
                    &&& texts(final(self).terminal_log@) == (if lost {
                        bounded_push(log1, parity_message(b), 100)
                    } else {
                        log1
                    })
                    &&& final(pic).irq_pending == pending
                }
            }),
            final(self).baud_rate_ticks == old(self).baud_rate_ticks,
            final(self).echo_mode == old(self).echo_mode,
            final(self).input_text == old(self).input_text,
            final(pic).irq_enabled == old(pic).irq_enabled,
            final(pic).vector_table == old(pic).vector_table,
            final(pic).master_enable == old(pic).master_enable,
            final(pic).last_serviced_irq == old(pic).last_serviced_irq,
            final(pic).pad == old(pic).pad,
            final(kernel).pc == old(kernel).pc,
            final(kernel).reg_a == old(kernel).reg_a,
            final(kernel).reg_b == old(kernel).reg_b,
            final(kernel).is_running == old(kernel).is_running,
            final(kernel).vram == old(kernel).vram,
            final(kernel).logs == old(kernel).logs,
    {
        let cmd = kernel.ram[0x82].0;
        if cmd != 0 {
            self.execute_command(cmd);
            kernel.ram[0x82] = QuatByte(0);
        } else {
            assert(kernel.ram@ =~= kernel.ram@.update(0x82, QuatByte(0)));
        }
        match self.state {
            ModemState::Dialing(count) => {
                let next = count + 1;
                if next > 50 {
                    self.state = ModemState::Connected;
                    self.log("CONNECT 9600 BAUD / QuatNET Server Online.");
                } else {
                    self.state = ModemState::Dialing(next);
                }
                return;
            },
            ModemState::Disconnected => {
                return;
            },
            ModemState::Connected => {},
        }
        self.tick_counter += 1;
        if self.tick_counter >= self.baud_rate_ticks {
            self.tick_counter = 0;
            let sent = self.tx_buffer.pop_front();
            match sent {
                Some(byte_to_send) => {
                    self.total_bytes_sent += 1;
                    if self.echo_mode {
                        if line_clear {
                            self.push_rx(byte_to_send, kernel, pic);
                        } else {
                            let mut m = String::from_str("⚠️ PARITY ERROR: Byte 0x");
                            push_radix(&mut m, byte_to_send as u64, 16, 2);
                            m.append(" lost!");
                            assert(m@ =~= parity_message(byte_to_send));
                            self.log(m.as_str());
                        }
                    }
                },
                None => {},
            }
        }
        let rx_len = self.rx_buffer.len();
        let tx_len = self.tx_buffer.len();
        let mut status = 0u8;
        if rx_len > 0 {
            status = status + 1;
        }
        if tx_len < 64 {
            status = status + 2;
        }
        status = status + 4;
        kernel.ram[0x81] = QuatByte(status);
        let mmio_data = kernel.ram[0x80].0;
        if mmio_data != 0 && self.tx_buffer.len() < 64 {
            self.tx_buffer.push_back(mmio_data);
            kernel.ram[0x80] = QuatByte(0);
        }
    }
}

impl QuatNET {
    /// The send button of the terminal: a non-empty input line is logged
    /// after `> `, queued for sending with CR LF, and cleared.
    pub fn send_input(&mut self)
        ensures
            old(self).input_text@.len() == 0 ==> *final(self) == *old(self),
            old(self).input_text@.len() > 0 ==> {
                &&& texts(final(self).terminal_log@) == bounded_push(
                    texts(old(self).terminal_log@),
                    "> "@ + old(self).input_text@,
                    100,
                )
                &&& final(self).tx_buffer@ == fill_up(
                    old(self).tx_buffer@,
                    vstd::utf8::encode_utf8(old(self).input_text@ + "\r\n"@),
                    64,
                )
                &&& final(self).input_text@.len() == 0
                &&& final(self).state == old(self).state
                &&& final(self).rx_buffer@ == old(self).rx_buffer@
            },
    {
        if self.input_text.as_str().as_bytes().len() == 0 {
            proof {
                if self.input_text@.len() > 0 {
                    assert(vstd::utf8::encode_utf8(self.input_text@).len() > 0) by {
                        assert(vstd::utf8::encode_scalar(self.input_text@[0] as u32).len() >= 1);
                    }
                }
            }
            return;
        }
        let mut line = String::from_str("> ");
        line.append(self.input_text.as_str());
        self.log(line.as_str());
        let mut text = self.input_text.clone();
        text.append("\r\n");
        self.send_string(text.as_str());
        self.input_text = String::new();
    }
}

} // verus!
