//! Address and interrupt-number newtypes shared by the kernel layers.
use vstd::prelude::*;

verus! {

/// Interrupt request identifier.
#[derive(Clone, Copy, PartialEq, Eq, PartialOrd, Ord, Hash, Debug, Structural)]
pub struct IrqId(usize);

impl View for IrqId {
    type V = usize;

    closed spec fn view(&self) -> usize {
        self.0
    }
}

impl IrqId {
    /// Creates the identifier holding `value`.
    pub fn new(value: usize) -> (id: Self)
        ensures
            id@ == value,
    {
        IrqId(value)
    }

    /// The value held by the identifier.
    pub fn raw(&self) -> (v: usize)
        ensures
            v == self@,
    {
        self.0
    }
}

impl Default for IrqId {
    fn default() -> (id: Self)
        ensures
            id@ == 0,
    {
        IrqId(0)
    }
}

impl From<usize> for IrqId {
    fn from(value: usize) -> (id: Self)
        ensures
            id@ == value,
    {
        IrqId(value)
    }
}

impl vstd::std_specs::convert::FromSpecImpl<usize> for IrqId {
    open spec fn obeys_from_spec() -> bool {
        true
    }

    closed spec fn from_spec(v: usize) -> Self {
        IrqId(v)
    }
}

impl From<IrqId> for usize {
    fn from(id: IrqId) -> (v: Self)
        ensures
            v == id@,
    {
        id.0
    }
}

impl vstd::std_specs::convert::FromSpecImpl<IrqId> for usize {
    open spec fn obeys_from_spec() -> bool {
        true
    }

    open spec fn from_spec(id: IrqId) -> Self {
        id@
    }
}

impl core::ops::Add<usize> for IrqId {
    type Output = Self;

    fn add(self, rhs: usize) -> (r: Self)
        ensures
            r@ == self@ + rhs,
    {
        IrqId(self.0 + rhs)
    }
}

impl vstd::std_specs::ops::AddSpecImpl<usize> for IrqId {
    open spec fn obeys_add_spec() -> bool {
        true
    }

    open spec fn add_req(self, rhs: usize) -> bool {
        self@ + rhs <= usize::MAX
    }

    closed spec fn add_spec(self, rhs: usize) -> Self {
        IrqId((self.0 + rhs) as usize)
    }
}

impl core::ops::Add<IrqId> for IrqId {
    type Output = Self;

    fn add(self, rhs: IrqId) -> (r: Self)
        ensures
            r@ == self@ + rhs@,
    {
        IrqId(self.0 + rhs.0)
    }
}

impl vstd::std_specs::ops::AddSpecImpl<IrqId> for IrqId {
    open spec fn obeys_add_spec() -> bool {
        true
    }

    open spec fn add_req(self, rhs: IrqId) -> bool {
        self@ + rhs@ <= usize::MAX
    }

    closed spec fn add_spec(self, rhs: IrqId) -> Self {
        IrqId((self.0 + rhs.0) as usize)
    }
}

impl core::ops::AddAssign<usize> for IrqId {
    fn add_assign(&mut self, rhs: usize)
        requires
            old(self)@ + rhs <= usize::MAX,
        ensures
            final(self)@ == old(self)@ + rhs,
    {
        self.0 = self.0 + rhs;
    }
}

impl core::ops::Sub<usize> for IrqId {
    type Output = Self;

    fn sub(self, rhs: usize) -> (r: Self)
        ensures
            r@ == self@ - rhs,
    {
        IrqId(self.0 - rhs)
    }
}

impl vstd::std_specs::ops::SubSpecImpl<usize> for IrqId {
    open spec fn obeys_sub_spec() -> bool {
        true
    }

    open spec fn sub_req(self, rhs: usize) -> bool {
        self@ - rhs >= usize::MIN
    }

    closed spec fn sub_spec(self, rhs: usize) -> Self {
        IrqId((self.0 - rhs) as usize)
    }
}

impl core::ops::Sub<IrqId> for IrqId {
    type Output = Self;

    fn sub(self, rhs: IrqId) -> (r: Self)
        ensures
            r@ == self@ - rhs@,
    {
        IrqId(self.0 - rhs.0)
    }
}

impl vstd::std_specs::ops::SubSpecImpl<IrqId> for IrqId {
    open spec fn obeys_sub_spec() -> bool {
        true
    }

    open spec fn sub_req(self, rhs: IrqId) -> bool {
        self@ - rhs@ >= usize::MIN
    }

    closed spec fn sub_spec(self, rhs: IrqId) -> Self {
        IrqId((self.0 - rhs.0) as usize)
    }
}

impl core::ops::SubAssign<usize> for IrqId {
    fn sub_assign(&mut self, rhs: usize)
        requires
            old(self)@ - rhs >= usize::MIN,
        ensures
            final(self)@ == old(self)@ - rhs,
    {
        self.0 = self.0 - rhs;
    }
}

/// Physical address.
#[derive(Clone, Copy, PartialEq, Eq, PartialOrd, Ord, Hash, Debug, Structural)]
pub struct PhysAddr(usize);

impl View for PhysAddr {
    type V = usize;

    closed spec fn view(&self) -> usize {
        self.0
    }
}

impl PhysAddr {
    /// The address `value`.
    pub closed spec fn from_usize(value: usize) -> Self {
        PhysAddr(value)
    }

    /// `from_usize(value)` holds `value`, and is the only address that does.
    pub proof fn lemma_from_usize(value: usize)
        ensures
            Self::from_usize(value)@ == value,
            forall|a: Self| a@ == value ==> a == Self::from_usize(value),
    {
    }

    /// Creates the identifier holding `value`.
    pub fn new(value: usize) -> (id: Self)
        ensures
            id@ == value,
    {
        PhysAddr(value)
    }

    /// The value held by the identifier.
    pub fn raw(&self) -> (v: usize)
        ensures
            v == self@,
    {
        self.0
    }
}

impl Default for PhysAddr {
    fn default() -> (id: Self)
        ensures
            id@ == 0,
    {
        PhysAddr(0)
    }
}

impl From<usize> for PhysAddr {
    fn from(value: usize) -> (id: Self)
        ensures
            id@ == value,
    {
        PhysAddr(value)
    }
}

impl vstd::std_specs::convert::FromSpecImpl<usize> for PhysAddr {
    open spec fn obeys_from_spec() -> bool {
        true
    }

    closed spec fn from_spec(v: usize) -> Self {
        PhysAddr(v)
    }
}

impl From<PhysAddr> for usize {
    fn from(id: PhysAddr) -> (v: Self)
        ensures
            v == id@,
    {
        id.0
    }
}

impl vstd::std_specs::convert::FromSpecImpl<PhysAddr> for usize {
    open spec fn obeys_from_spec() -> bool {
        true
    }

    open spec fn from_spec(id: PhysAddr) -> Self {
        id@
    }
}

impl core::ops::Add<usize> for PhysAddr {
    type Output = Self;

    fn add(self, rhs: usize) -> (r: Self)
        ensures
            r@ == self@ + rhs,
    {
        PhysAddr(self.0 + rhs)
    }
}

impl vstd::std_specs::ops::AddSpecImpl<usize> for PhysAddr {
    open spec fn obeys_add_spec() -> bool {
        true
    }

    open spec fn add_req(self, rhs: usize) -> bool {
        self@ + rhs <= usize::MAX
    }

    closed spec fn add_spec(self, rhs: usize) -> Self {
        PhysAddr((self.0 + rhs) as usize)
    }
}

impl core::ops::Add<PhysAddr> for PhysAddr {
    type Output = Self;

    fn add(self, rhs: PhysAddr) -> (r: Self)
        ensures
            r@ == self@ + rhs@,
    {
        PhysAddr(self.0 + rhs.0)
    }
}

impl vstd::std_specs::ops::AddSpecImpl<PhysAddr> for PhysAddr {
    open spec fn obeys_add_spec() -> bool {
        true
    }

    open spec fn add_req(self, rhs: PhysAddr) -> bool {
        self@ + rhs@ <= usize::MAX
    }

    closed spec fn add_spec(self, rhs: PhysAddr) -> Self {
        PhysAddr((self.0 + rhs.0) as usize)
    }
}

impl core::ops::AddAssign<usize> for PhysAddr {
    fn add_assign(&mut self, rhs: usize)
        requires
            old(self)@ + rhs <= usize::MAX,
        ensures
            final(self)@ == old(self)@ + rhs,
    {
        self.0 = self.0 + rhs;
    }
}

impl core::ops::Sub<usize> for PhysAddr {
    type Output = Self;

    fn sub(self, rhs: usize) -> (r: Self)
        ensures
            r@ == self@ - rhs,
    {
        PhysAddr(self.0 - rhs)
    }
}

impl vstd::std_specs::ops::SubSpecImpl<usize> for PhysAddr {
    open spec fn obeys_sub_spec() -> bool {
        true
    }

    open spec fn sub_req(self, rhs: usize) -> bool {
        self@ - rhs >= usize::MIN
    }

    closed spec fn sub_spec(self, rhs: usize) -> Self {
        PhysAddr((self.0 - rhs) as usize)
    }
}

impl core::ops::Sub<PhysAddr> for PhysAddr {
    type Output = Self;

    fn sub(self, rhs: PhysAddr) -> (r: Self)
        ensures
            r@ == self@ - rhs@,
    {
        PhysAddr(self.0 - rhs.0)
    }
}

impl vstd::std_specs::ops::SubSpecImpl<PhysAddr> for PhysAddr {
    open spec fn obeys_sub_spec() -> bool {
        true
    }

    open spec fn sub_req(self, rhs: PhysAddr) -> bool {
        self@ - rhs@ >= usize::MIN
    }

    closed spec fn sub_spec(self, rhs: PhysAddr) -> Self {
        PhysAddr((self.0 - rhs.0) as usize)
    }
}

impl core::ops::SubAssign<usize> for PhysAddr {
    fn sub_assign(&mut self, rhs: usize)
        requires
            old(self)@ - rhs >= usize::MIN,
        ensures
            final(self)@ == old(self)@ - rhs,
    {
        self.0 = self.0 - rhs;
    }
}

/// Virtual address.
#[derive(Clone, Copy, PartialEq, Eq, PartialOrd, Ord, Hash, Debug, Structural)]
pub struct VirtAddr(usize);

impl View for VirtAddr {
    type V = usize;

    closed spec fn view(&self) -> usize {
        self.0
    }
}

impl VirtAddr {
    /// The address `value`.
    pub closed spec fn from_usize(value: usize) -> Self {
        VirtAddr(value)
    }

    /// `from_usize(value)` holds `value`, and is the only address that does.
    pub proof fn lemma_from_usize(value: usize)
        ensures
            Self::from_usize(value)@ == value,
            forall|a: Self| a@ == value ==> a == Self::from_usize(value),
    {
    }

    /// Creates the identifier holding `value`.
    pub fn new(value: usize) -> (id: Self)
        ensures
            id@ == value,
    {
        VirtAddr(value)
    }

    /// The value held by the identifier.
    pub fn raw(&self) -> (v: usize)
        ensures
            v == self@,
    {
        self.0
    }
}

impl Default for VirtAddr {
    fn default() -> (id: Self)
        ensures
            id@ == 0,
    {
        VirtAddr(0)
    }
}

impl From<usize> for VirtAddr {
    fn from(value: usize) -> (id: Self)
        ensures
            id@ == value,
    {
        VirtAddr(value)
    }
}

impl vstd::std_specs::convert::FromSpecImpl<usize> for VirtAddr {
    open spec fn obeys_from_spec() -> bool {
        true
    }

    closed spec fn from_spec(v: usize) -> Self {
        VirtAddr(v)
    }
}

impl From<VirtAddr> for usize {
    fn from(id: VirtAddr) -> (v: Self)
        ensures
            v == id@,
    {
        id.0
    }
}

impl vstd::std_specs::convert::FromSpecImpl<VirtAddr> for usize {
    open spec fn obeys_from_spec() -> bool {
        true
    }

    open spec fn from_spec(id: VirtAddr) -> Self {
        id@
    }
}

impl core::ops::Add<usize> for VirtAddr {
    type Output = Self;

    fn add(self, rhs: usize) -> (r: Self)
        ensures
            r@ == self@ + rhs,
    {
        VirtAddr(self.0 + rhs)
    }
}

impl vstd::std_specs::ops::AddSpecImpl<usize> for VirtAddr {
    open spec fn obeys_add_spec() -> bool {
        true
    }

    open spec fn add_req(self, rhs: usize) -> bool {
        self@ + rhs <= usize::MAX
    }

    closed spec fn add_spec(self, rhs: usize) -> Self {
        VirtAddr((self.0 + rhs) as usize)
    }
}

impl core::ops::Add<VirtAddr> for VirtAddr {
    type Output = Self;

    fn add(self, rhs: VirtAddr) -> (r: Self)
        ensures
            r@ == self@ + rhs@,
    {
        VirtAddr(self.0 + rhs.0)
    }
}

impl vstd::std_specs::ops::AddSpecImpl<VirtAddr> for VirtAddr {
    open spec fn obeys_add_spec() -> bool {
        true
    }

    open spec fn add_req(self, rhs: VirtAddr) -> bool {
        self@ + rhs@ <= usize::MAX
    }

    closed spec fn add_spec(self, rhs: VirtAddr) -> Self {
        VirtAddr((self.0 + rhs.0) as usize)
    }
}

impl core::ops::AddAssign<usize> for VirtAddr {
    fn add_assign(&mut self, rhs: usize)
        requires
            old(self)@ + rhs <= usize::MAX,
        ensures
            final(self)@ == old(self)@ + rhs,
    {
        self.0 = self.0 + rhs;
    }
}

impl core::ops::Sub<usize> for VirtAddr {
    type Output = Self;

    fn sub(self, rhs: usize) -> (r: Self)
        ensures
            r@ == self@ - rhs,
    {
        VirtAddr(self.0 - rhs)
    }
}

impl vstd::std_specs::ops::SubSpecImpl<usize> for VirtAddr {
    open spec fn obeys_sub_spec() -> bool {
        true
    }

    open spec fn sub_req(self, rhs: usize) -> bool {
        self@ - rhs >= usize::MIN
    }

    closed spec fn sub_spec(self, rhs: usize) -> Self {
        VirtAddr((self.0 - rhs) as usize)
    }
}

impl core::ops::Sub<VirtAddr> for VirtAddr {
    type Output = Self;

    fn sub(self, rhs: VirtAddr) -> (r: Self)
        ensures
            r@ == self@ - rhs@,
    {
        VirtAddr(self.0 - rhs.0)
    }
}

impl vstd::std_specs::ops::SubSpecImpl<VirtAddr> for VirtAddr {
    open spec fn obeys_sub_spec() -> bool {
        true
    }

    open spec fn sub_req(self, rhs: VirtAddr) -> bool {
        self@ - rhs@ >= usize::MIN
    }

    closed spec fn sub_spec(self, rhs: VirtAddr) -> Self {
        VirtAddr((self.0 - rhs.0) as usize)
    }
}

impl core::ops::SubAssign<usize> for VirtAddr {
    fn sub_assign(&mut self, rhs: usize)
        requires
            old(self)@ - rhs >= usize::MIN,
        ensures
            final(self)@ == old(self)@ - rhs,
    {
        self.0 = self.0 - rhs;
    }
}

} // verus!
