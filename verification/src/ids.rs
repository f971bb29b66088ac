//! Strongly typed identifiers: a newtype over an integer with construction,
//! conversion and checked-in-contract arithmetic.
use vstd::prelude::*;

verus! {

/// Task identifier.
#[derive(Clone, Copy, PartialEq, Eq, PartialOrd, Ord, Hash, Debug, Structural)]
pub struct TaskId(usize);

impl View for TaskId {
    type V = usize;

    closed spec fn view(&self) -> usize {
        self.0
    }
}

impl TaskId {
    /// Creates the identifier holding `value`.
    pub fn new(value: usize) -> (id: Self)
        ensures
            id@ == value,
    {
        TaskId(value)
    }

    /// The value held by the identifier.
    pub fn raw(&self) -> (v: usize)
        ensures
            v == self@,
    {
        self.0
    }
}

impl Default for TaskId {
    fn default() -> (id: Self)
        ensures
            id@ == 0,
    {
        TaskId(0)
    }
}

impl From<usize> for TaskId {
    fn from(value: usize) -> (id: Self)
        ensures
            id@ == value,
    {
        TaskId(value)
    }
}

impl vstd::std_specs::convert::FromSpecImpl<usize> for TaskId {
    open spec fn obeys_from_spec() -> bool {
        true
    }

    closed spec fn from_spec(v: usize) -> Self {
        TaskId(v)
    }
}

impl From<TaskId> for usize {
    fn from(id: TaskId) -> (v: Self)
        ensures
            v == id@,
    {
        id.0
    }
}

impl vstd::std_specs::convert::FromSpecImpl<TaskId> for usize {
    open spec fn obeys_from_spec() -> bool {
        true
    }

    open spec fn from_spec(id: TaskId) -> Self {
        id@
    }
}

impl core::ops::Add<usize> for TaskId {
    type Output = Self;

    fn add(self, rhs: usize) -> (r: Self)
        ensures
            r@ == self@ + rhs,
    {
        TaskId(self.0 + rhs)
    }
}

impl vstd::std_specs::ops::AddSpecImpl<usize> for TaskId {
    open spec fn obeys_add_spec() -> bool {
        true
    }

    open spec fn add_req(self, rhs: usize) -> bool {
        self@ + rhs <= usize::MAX
    }

    closed spec fn add_spec(self, rhs: usize) -> Self {
        TaskId((self.0 + rhs) as usize)
    }
}

impl core::ops::Add<TaskId> for TaskId {
    type Output = Self;

    fn add(self, rhs: TaskId) -> (r: Self)
        ensures
            r@ == self@ + rhs@,
    {
        TaskId(self.0 + rhs.0)
    }
}

impl vstd::std_specs::ops::AddSpecImpl<TaskId> for TaskId {
    open spec fn obeys_add_spec() -> bool {
        true
    }

    open spec fn add_req(self, rhs: TaskId) -> bool {
        self@ + rhs@ <= usize::MAX
    }

    closed spec fn add_spec(self, rhs: TaskId) -> Self {
        TaskId((self.0 + rhs.0) as usize)
    }
}

impl core::ops::AddAssign<usize> for TaskId {
    fn add_assign(&mut self, rhs: usize)
        requires
            old(self)@ + rhs <= usize::MAX,
        ensures
            final(self)@ == old(self)@ + rhs,
    {
        self.0 = self.0 + rhs;
    }
}

impl core::ops::Sub<usize> for TaskId {
    type Output = Self;

    fn sub(self, rhs: usize) -> (r: Self)
        ensures
            r@ == self@ - rhs,
    {
        TaskId(self.0 - rhs)
    }
}

impl vstd::std_specs::ops::SubSpecImpl<usize> for TaskId {
    open spec fn obeys_sub_spec() -> bool {
        true
    }

    open spec fn sub_req(self, rhs: usize) -> bool {
        self@ - rhs >= usize::MIN
    }

    closed spec fn sub_spec(self, rhs: usize) -> Self {
        TaskId((self.0 - rhs) as usize)
    }
}

impl core::ops::Sub<TaskId> for TaskId {
    type Output = Self;

    fn sub(self, rhs: TaskId) -> (r: Self)
        ensures
            r@ == self@ - rhs@,
    {
        TaskId(self.0 - rhs.0)
    }
}

impl vstd::std_specs::ops::SubSpecImpl<TaskId> for TaskId {
    open spec fn obeys_sub_spec() -> bool {
        true
    }

    open spec fn sub_req(self, rhs: TaskId) -> bool {
        self@ - rhs@ >= usize::MIN
    }

    closed spec fn sub_spec(self, rhs: TaskId) -> Self {
        TaskId((self.0 - rhs.0) as usize)
    }
}

impl core::ops::SubAssign<usize> for TaskId {
    fn sub_assign(&mut self, rhs: usize)
        requires
            old(self)@ - rhs >= usize::MIN,
        ensures
            final(self)@ == old(self)@ - rhs,
    {
        self.0 = self.0 - rhs;
    }
}

/// CPU identifier.
#[derive(Clone, Copy, PartialEq, Eq, PartialOrd, Ord, Hash, Debug, Structural)]
pub struct CpuId(u32);

impl View for CpuId {
    type V = u32;

    closed spec fn view(&self) -> u32 {
        self.0
    }
}

impl CpuId {
    /// Creates the identifier holding `value`.
    pub fn new(value: u32) -> (id: Self)
        ensures
            id@ == value,
    {
        CpuId(value)
    }

    /// The value held by the identifier.
    pub fn raw(&self) -> (v: u32)
        ensures
            v == self@,
    {
        self.0
    }
}

impl Default for CpuId {
    fn default() -> (id: Self)
        ensures
            id@ == 0,
    {
        CpuId(0)
    }
}

impl From<u32> for CpuId {
    fn from(value: u32) -> (id: Self)
        ensures
            id@ == value,
    {
        CpuId(value)
    }
}

impl vstd::std_specs::convert::FromSpecImpl<u32> for CpuId {
    open spec fn obeys_from_spec() -> bool {
        true
    }

    closed spec fn from_spec(v: u32) -> Self {
        CpuId(v)
    }
}

impl From<CpuId> for u32 {
    fn from(id: CpuId) -> (v: Self)
        ensures
            v == id@,
    {
        id.0
    }
}

impl vstd::std_specs::convert::FromSpecImpl<CpuId> for u32 {
    open spec fn obeys_from_spec() -> bool {
        true
    }

    open spec fn from_spec(id: CpuId) -> Self {
        id@
    }
}

impl core::ops::Add<u32> for CpuId {
    type Output = Self;

    fn add(self, rhs: u32) -> (r: Self)
        ensures
            r@ == self@ + rhs,
    {
        CpuId(self.0 + rhs)
    }
}

impl vstd::std_specs::ops::AddSpecImpl<u32> for CpuId {
    open spec fn obeys_add_spec() -> bool {
        true
    }

    open spec fn add_req(self, rhs: u32) -> bool {
        self@ + rhs <= u32::MAX
    }

    closed spec fn add_spec(self, rhs: u32) -> Self {
        CpuId((self.0 + rhs) as u32)
    }
}

impl core::ops::Add<CpuId> for CpuId {
    type Output = Self;

    fn add(self, rhs: CpuId) -> (r: Self)
        ensures
            r@ == self@ + rhs@,
    {
        CpuId(self.0 + rhs.0)
    }
}

impl vstd::std_specs::ops::AddSpecImpl<CpuId> for CpuId {
    open spec fn obeys_add_spec() -> bool {
        true
    }

    open spec fn add_req(self, rhs: CpuId) -> bool {
        self@ + rhs@ <= u32::MAX
    }

    closed spec fn add_spec(self, rhs: CpuId) -> Self {
        CpuId((self.0 + rhs.0) as u32)
    }
}

impl core::ops::AddAssign<u32> for CpuId {
    fn add_assign(&mut self, rhs: u32)
        requires
            old(self)@ + rhs <= u32::MAX,
        ensures
            final(self)@ == old(self)@ + rhs,
    {
        self.0 = self.0 + rhs;
    }
}

impl core::ops::Sub<u32> for CpuId {
    type Output = Self;

    fn sub(self, rhs: u32) -> (r: Self)
        ensures
            r@ == self@ - rhs,
    {
        CpuId(self.0 - rhs)
    }
}

impl vstd::std_specs::ops::SubSpecImpl<u32> for CpuId {
    open spec fn obeys_sub_spec() -> bool {
        true
    }

    open spec fn sub_req(self, rhs: u32) -> bool {
        self@ - rhs >= u32::MIN
    }

    closed spec fn sub_spec(self, rhs: u32) -> Self {
        CpuId((self.0 - rhs) as u32)
    }
}

impl core::ops::Sub<CpuId> for CpuId {
    type Output = Self;

    fn sub(self, rhs: CpuId) -> (r: Self)
        ensures
            r@ == self@ - rhs@,
    {
        CpuId(self.0 - rhs.0)
    }
}

impl vstd::std_specs::ops::SubSpecImpl<CpuId> for CpuId {
    open spec fn obeys_sub_spec() -> bool {
        true
    }

    open spec fn sub_req(self, rhs: CpuId) -> bool {
        self@ - rhs@ >= u32::MIN
    }

    closed spec fn sub_spec(self, rhs: CpuId) -> Self {
        CpuId((self.0 - rhs.0) as u32)
    }
}

impl core::ops::SubAssign<u32> for CpuId {
    fn sub_assign(&mut self, rhs: u32)
        requires
            old(self)@ - rhs >= u32::MIN,
        ensures
            final(self)@ == old(self)@ - rhs,
    {
        self.0 = self.0 - rhs;
    }
}

/// Process identifier.
#[derive(Clone, Copy, PartialEq, Eq, PartialOrd, Ord, Hash, Debug, Structural)]
pub struct ProcessId(usize);

impl View for ProcessId {
    type V = usize;

    closed spec fn view(&self) -> usize {
        self.0
    }
}

impl ProcessId {
    /// Creates the identifier holding `value`.
    pub fn new(value: usize) -> (id: Self)
        ensures
            id@ == value,
    {
        ProcessId(value)
    }

    /// The value held by the identifier.
    pub fn raw(&self) -> (v: usize)
        ensures
            v == self@,
    {
        self.0
    }
}

impl Default for ProcessId {
    fn default() -> (id: Self)
        ensures
            id@ == 0,
    {
        ProcessId(0)
    }
}

impl From<usize> for ProcessId {
    fn from(value: usize) -> (id: Self)
        ensures
            id@ == value,
    {
        ProcessId(value)
    }
}

impl vstd::std_specs::convert::FromSpecImpl<usize> for ProcessId {
    open spec fn obeys_from_spec() -> bool {
        true
    }

    closed spec fn from_spec(v: usize) -> Self {
        ProcessId(v)
    }
}

impl From<ProcessId> for usize {
    fn from(id: ProcessId) -> (v: Self)
        ensures
            v == id@,
    {
        id.0
    }
}

impl vstd::std_specs::convert::FromSpecImpl<ProcessId> for usize {
    open spec fn obeys_from_spec() -> bool {
        true
    }

    open spec fn from_spec(id: ProcessId) -> Self {
        id@
    }
}

impl core::ops::Add<usize> for ProcessId {
    type Output = Self;

    fn add(self, rhs: usize) -> (r: Self)
        ensures
            r@ == self@ + rhs,
    {
        ProcessId(self.0 + rhs)
    }
}

impl vstd::std_specs::ops::AddSpecImpl<usize> for ProcessId {
    open spec fn obeys_add_spec() -> bool {
        true
    }

    open spec fn add_req(self, rhs: usize) -> bool {
        self@ + rhs <= usize::MAX
    }

    closed spec fn add_spec(self, rhs: usize) -> Self {
        ProcessId((self.0 + rhs) as usize)
    }
}

impl core::ops::Add<ProcessId> for ProcessId {
    type Output = Self;

    fn add(self, rhs: ProcessId) -> (r: Self)
        ensures
            r@ == self@ + rhs@,
    {
        ProcessId(self.0 + rhs.0)
    }
}

impl vstd::std_specs::ops::AddSpecImpl<ProcessId> for ProcessId {
    open spec fn obeys_add_spec() -> bool {
        true
    }

    open spec fn add_req(self, rhs: ProcessId) -> bool {
        self@ + rhs@ <= usize::MAX
    }

    closed spec fn add_spec(self, rhs: ProcessId) -> Self {
        ProcessId((self.0 + rhs.0) as usize)
    }
}

impl core::ops::AddAssign<usize> for ProcessId {
    fn add_assign(&mut self, rhs: usize)
        requires
            old(self)@ + rhs <= usize::MAX,
        ensures
            final(self)@ == old(self)@ + rhs,
    {
        self.0 = self.0 + rhs;
    }
}

impl core::ops::Sub<usize> for ProcessId {
    type Output = Self;

    fn sub(self, rhs: usize) -> (r: Self)
        ensures
            r@ == self@ - rhs,
    {
        ProcessId(self.0 - rhs)
    }
}

impl vstd::std_specs::ops::SubSpecImpl<usize> for ProcessId {
    open spec fn obeys_sub_spec() -> bool {
        true
    }

    open spec fn sub_req(self, rhs: usize) -> bool {
        self@ - rhs >= usize::MIN
    }

    closed spec fn sub_spec(self, rhs: usize) -> Self {
        ProcessId((self.0 - rhs) as usize)
    }
}

impl core::ops::Sub<ProcessId> for ProcessId {
    type Output = Self;

    fn sub(self, rhs: ProcessId) -> (r: Self)
        ensures
            r@ == self@ - rhs@,
    {
        ProcessId(self.0 - rhs.0)
    }
}

impl vstd::std_specs::ops::SubSpecImpl<ProcessId> for ProcessId {
    open spec fn obeys_sub_spec() -> bool {
        true
    }

    open spec fn sub_req(self, rhs: ProcessId) -> bool {
        self@ - rhs@ >= usize::MIN
    }

    closed spec fn sub_spec(self, rhs: ProcessId) -> Self {
        ProcessId((self.0 - rhs.0) as usize)
    }
}

impl core::ops::SubAssign<usize> for ProcessId {
    fn sub_assign(&mut self, rhs: usize)
        requires
            old(self)@ - rhs >= usize::MIN,
        ensures
            final(self)@ == old(self)@ - rhs,
    {
        self.0 = self.0 - rhs;
    }
}

} // verus!
