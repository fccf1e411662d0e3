//! Global entries: a global's type together with its init expression.

use vstd::prelude::*;
use crate::elements::error::Error;
use crate::elements::import_entry::GlobalType;
use crate::elements::io::{Reader, lemma_reader_advance};
use crate::elements::ops::InitExpr;
use crate::elements::traits::{Deserialize, Serialize};

verus! {

/// One global of the module: its type and its initializer.
#[derive(Clone, Debug, PartialEq)]
pub struct GlobalEntry {
    /// The global's type.
    pub global_type: GlobalType,
    /// The initialization expression.
    pub init_expr: InitExpr,
}

impl GlobalEntry {
    /// New global entry.
    pub fn new(global_type: GlobalType, init_expr: InitExpr) -> (r: Self)
        ensures
            r.global_type == global_type,
            r.init_expr == init_expr,
    {
        GlobalEntry { global_type, init_expr }
    }

    /// The global's type.
    pub fn global_type(&self) -> (r: &GlobalType)
        ensures
            r == &self.global_type,
    {
        &self.global_type
    }

    /// The initialization expression of the global.
    pub fn init_expr(&self) -> (r: &InitExpr)
        ensures
            r == &self.init_expr,
    {
        &self.init_expr
    }

    /// The global's type, mutable.
    pub fn global_type_mut(&mut self) -> (r: &mut GlobalType)
        ensures
            *r == old(self).global_type,
            final(self).global_type == *final(r),
            final(self).init_expr == old(self).init_expr,
    {
        &mut self.global_type
    }

    /// The initialization expression, mutable.
    pub fn init_expr_mut(&mut self) -> (r: &mut InitExpr)
        ensures
            *r == old(self).init_expr,
            final(self).init_expr == *final(r),
            final(self).global_type == old(self).global_type,
    {
        &mut self.init_expr
    }

    /// The global's type, for contracts.
    pub open spec fn spec_global_type(&self) -> GlobalType {
        self.global_type
    }

    /// The initializer, for contracts.
    pub open spec fn spec_init_expr(&self) -> InitExpr {
        self.init_expr
    }
}

impl Serialize for GlobalEntry {
    open spec fn enc(&self) -> Seq<u8> {
        self.global_type.enc() + self.init_expr.enc()
    }

    open spec fn deq(&self, other: &Self) -> bool {
        self.global_type == other.global_type && self.init_expr.deq(&other.init_expr)
    }

    open spec fn enc_wf(&self) -> bool {
        self.init_expr.enc_wf()
    }

    fn serialize(&self, out: &mut Vec<u8>) {
        self.global_type.serialize(out);
        self.init_expr.serialize(out);
        proof {
            assert(out@ =~= old(out)@ + self.enc());
        }
    }
}

impl Deserialize for GlobalEntry {
    fn deserialize(reader: &mut Reader) -> (r: Result<Self, Error>) {
        let ghost r0 = *old(reader);
        proof {
            assert forall|v: Self, rest: Seq<u8>|
                v.enc_wf() && r0.remaining() == #[trigger] (v.enc() + rest) implies r0.remaining()
                == v.global_type.enc() + (v.init_expr.enc() + rest) by {
                assert(v.enc() + rest =~= v.global_type.enc() + (v.init_expr.enc() + rest));
            }
        }
        let global_type = match GlobalType::deserialize(reader) {
            Ok(t) => t,
            Err(e) => { return Err(e); },
        };
        let ghost r1 = *reader;
        proof {
            assert forall|v: Self, rest: Seq<u8>|
                v.enc_wf() && r0.remaining() == #[trigger] (v.enc() + rest) implies global_type
                == v.global_type && r1.remaining() == v.init_expr.enc() + rest by {
                lemma_reader_advance(r0, r1, v.global_type.enc(), v.init_expr.enc() + rest);
            }
        }
        let init_expr = match InitExpr::deserialize(reader) {
            Ok(x) => x,
            Err(e) => {
                proof {
                    assert forall|v: Self, rest: Seq<u8>|
                        v.enc_wf() && r0.remaining() == #[trigger] (v.enc() + rest)
                            implies false by {
                        assert(r1.remaining() == v.init_expr.enc() + rest);
                    }
                }
                return Err(e);
            },
        };
        let result = GlobalEntry { global_type, init_expr };
        proof {
            assert forall|v: Self, rest: Seq<u8>|
                v.enc_wf() && r0.remaining() == #[trigger] (v.enc() + rest) implies result.deq(&v)
                && reader.position() == r0.position() + v.enc().len() by {
                assert(r1.remaining() == v.init_expr.enc() + rest);
            }
        }
        Ok(result)
    }
}

} // verus!
