//! The types without inner structure. Each is its own optioned type; its
//! conversions hand the value back and a merge overwrites it.

use crate::convert::{Leaf, Optionable, OptionableConvert};
use crate::error::Error;
use vstd::prelude::*;

verus! {

impl Optionable for i8 {
    type Optioned = Self;
}

impl OptionableConvert for i8 {
    open spec fn optioned_form(full: Self, opt: Self) -> bool {
        opt == full
    }

    open spec fn rebuilt(value: Self, res: Result<Self, Error>) -> bool {
        res == Ok::<Self, Error>(value)
    }

    open spec fn merged(before: Self, other: Self, after: Self, res: Result<(), Error>) -> bool {
        res is Ok && after == other
    }

    fn into_optioned(self) -> (opt: Self) {
        self
    }

    fn try_from_optioned(value: Self) -> (res: Result<Self, Error>) {
        Ok(value)
    }

    fn merge(&mut self, other: Self) -> (res: Result<(), Error>) {
        *self = other;
        Ok(())
    }
}

impl Leaf for i8 {
    proof fn leaf_relations() {
    }
}

impl Optionable for i16 {
    type Optioned = Self;
}

impl OptionableConvert for i16 {
    open spec fn optioned_form(full: Self, opt: Self) -> bool {
        opt == full
    }

    open spec fn rebuilt(value: Self, res: Result<Self, Error>) -> bool {
        res == Ok::<Self, Error>(value)
    }

    open spec fn merged(before: Self, other: Self, after: Self, res: Result<(), Error>) -> bool {
        res is Ok && after == other
    }

    fn into_optioned(self) -> (opt: Self) {
        self
    }

    fn try_from_optioned(value: Self) -> (res: Result<Self, Error>) {
        Ok(value)
    }

    fn merge(&mut self, other: Self) -> (res: Result<(), Error>) {
        *self = other;
        Ok(())
    }
}

impl Leaf for i16 {
    proof fn leaf_relations() {
    }
}

impl Optionable for i32 {
    type Optioned = Self;
}

impl OptionableConvert for i32 {
    open spec fn optioned_form(full: Self, opt: Self) -> bool {
        opt == full
    }

    open spec fn rebuilt(value: Self, res: Result<Self, Error>) -> bool {
        res == Ok::<Self, Error>(value)
    }

    open spec fn merged(before: Self, other: Self, after: Self, res: Result<(), Error>) -> bool {
        res is Ok && after == other
    }

    fn into_optioned(self) -> (opt: Self) {
        self
    }

    fn try_from_optioned(value: Self) -> (res: Result<Self, Error>) {
        Ok(value)
    }

    fn merge(&mut self, other: Self) -> (res: Result<(), Error>) {
        *self = other;
        Ok(())
    }
}

impl Leaf for i32 {
    proof fn leaf_relations() {
    }
}

impl Optionable for i64 {
    type Optioned = Self;
}

impl OptionableConvert for i64 {
    open spec fn optioned_form(full: Self, opt: Self) -> bool {
        opt == full
    }

    open spec fn rebuilt(value: Self, res: Result<Self, Error>) -> bool {
        res == Ok::<Self, Error>(value)
    }

    open spec fn merged(before: Self, other: Self, after: Self, res: Result<(), Error>) -> bool {
        res is Ok && after == other
    }

    fn into_optioned(self) -> (opt: Self) {
        self
    }

    fn try_from_optioned(value: Self) -> (res: Result<Self, Error>) {
        Ok(value)
    }

    fn merge(&mut self, other: Self) -> (res: Result<(), Error>) {
        *self = other;
        Ok(())
    }
}

impl Leaf for i64 {
    proof fn leaf_relations() {
    }
}

impl Optionable for i128 {
    type Optioned = Self;
}

impl OptionableConvert for i128 {
    open spec fn optioned_form(full: Self, opt: Self) -> bool {
        opt == full
    }

    open spec fn rebuilt(value: Self, res: Result<Self, Error>) -> bool {
        res == Ok::<Self, Error>(value)
    }

    open spec fn merged(before: Self, other: Self, after: Self, res: Result<(), Error>) -> bool {
        res is Ok && after == other
    }

    fn into_optioned(self) -> (opt: Self) {
        self
    }

    fn try_from_optioned(value: Self) -> (res: Result<Self, Error>) {
        Ok(value)
    }

    fn merge(&mut self, other: Self) -> (res: Result<(), Error>) {
        *self = other;
        Ok(())
    }
}

impl Leaf for i128 {
    proof fn leaf_relations() {
    }
}

impl Optionable for isize {
    type Optioned = Self;
}

impl OptionableConvert for isize {
    open spec fn optioned_form(full: Self, opt: Self) -> bool {
        opt == full
    }

    open spec fn rebuilt(value: Self, res: Result<Self, Error>) -> bool {
        res == Ok::<Self, Error>(value)
    }

    open spec fn merged(before: Self, other: Self, after: Self, res: Result<(), Error>) -> bool {
        res is Ok && after == other
    }

    fn into_optioned(self) -> (opt: Self) {
        self
    }

    fn try_from_optioned(value: Self) -> (res: Result<Self, Error>) {
        Ok(value)
    }

    fn merge(&mut self, other: Self) -> (res: Result<(), Error>) {
        *self = other;
        Ok(())
    }
}

impl Leaf for isize {
    proof fn leaf_relations() {
    }
}

impl Optionable for u8 {
    type Optioned = Self;
}

impl OptionableConvert for u8 {
    open spec fn optioned_form(full: Self, opt: Self) -> bool {
        opt == full
    }

    open spec fn rebuilt(value: Self, res: Result<Self, Error>) -> bool {
        res == Ok::<Self, Error>(value)
    }

    open spec fn merged(before: Self, other: Self, after: Self, res: Result<(), Error>) -> bool {
        res is Ok && after == other
    }

    fn into_optioned(self) -> (opt: Self) {
        self
    }

    fn try_from_optioned(value: Self) -> (res: Result<Self, Error>) {
        Ok(value)
    }

    fn merge(&mut self, other: Self) -> (res: Result<(), Error>) {
        *self = other;
        Ok(())
    }
}

impl Leaf for u8 {
    proof fn leaf_relations() {
    }
}

impl Optionable for u16 {
    type Optioned = Self;
}

impl OptionableConvert for u16 {
    open spec fn optioned_form(full: Self, opt: Self) -> bool {
        opt == full
    }

    open spec fn rebuilt(value: Self, res: Result<Self, Error>) -> bool {
        res == Ok::<Self, Error>(value)
    }

    open spec fn merged(before: Self, other: Self, after: Self, res: Result<(), Error>) -> bool {
        res is Ok && after == other
    }

    fn into_optioned(self) -> (opt: Self) {
        self
    }

    fn try_from_optioned(value: Self) -> (res: Result<Self, Error>) {
        Ok(value)
    }

    fn merge(&mut self, other: Self) -> (res: Result<(), Error>) {
        *self = other;
        Ok(())
    }
}

impl Leaf for u16 {
    proof fn leaf_relations() {
    }
}

impl Optionable for u32 {
    type Optioned = Self;
}

impl OptionableConvert for u32 {
    open spec fn optioned_form(full: Self, opt: Self) -> bool {
        opt == full
    }

    open spec fn rebuilt(value: Self, res: Result<Self, Error>) -> bool {
        res == Ok::<Self, Error>(value)
    }

    open spec fn merged(before: Self, other: Self, after: Self, res: Result<(), Error>) -> bool {
        res is Ok && after == other
    }

    fn into_optioned(self) -> (opt: Self) {
        self
    }

    fn try_from_optioned(value: Self) -> (res: Result<Self, Error>) {
        Ok(value)
    }

    fn merge(&mut self, other: Self) -> (res: Result<(), Error>) {
        *self = other;
        Ok(())
    }
}

impl Leaf for u32 {
    proof fn leaf_relations() {
    }
}

impl Optionable for u64 {
    type Optioned = Self;
}

impl OptionableConvert for u64 {
    open spec fn optioned_form(full: Self, opt: Self) -> bool {
        opt == full
    }

    open spec fn rebuilt(value: Self, res: Result<Self, Error>) -> bool {
        res == Ok::<Self, Error>(value)
    }

    open spec fn merged(before: Self, other: Self, after: Self, res: Result<(), Error>) -> bool {
        res is Ok && after == other
    }

    fn into_optioned(self) -> (opt: Self) {
        self
    }

    fn try_from_optioned(value: Self) -> (res: Result<Self, Error>) {
        Ok(value)
    }

    fn merge(&mut self, other: Self) -> (res: Result<(), Error>) {
        *self = other;
        Ok(())
    }
}

impl Leaf for u64 {
    proof fn leaf_relations() {
    }
}

impl Optionable for u128 {
    type Optioned = Self;
}

impl OptionableConvert for u128 {
    open spec fn optioned_form(full: Self, opt: Self) -> bool {
        opt == full
    }

    open spec fn rebuilt(value: Self, res: Result<Self, Error>) -> bool {
        res == Ok::<Self, Error>(value)
    }

    open spec fn merged(before: Self, other: Self, after: Self, res: Result<(), Error>) -> bool {
        res is Ok && after == other
    }

    fn into_optioned(self) -> (opt: Self) {
        self
    }

    fn try_from_optioned(value: Self) -> (res: Result<Self, Error>) {
        Ok(value)
    }

    fn merge(&mut self, other: Self) -> (res: Result<(), Error>) {
        *self = other;
        Ok(())
    }
}

impl Leaf for u128 {
    proof fn leaf_relations() {
    }
}

impl Optionable for usize {
    type Optioned = Self;
}

impl OptionableConvert for usize {
    open spec fn optioned_form(full: Self, opt: Self) -> bool {
        opt == full
    }

    open spec fn rebuilt(value: Self, res: Result<Self, Error>) -> bool {
        res == Ok::<Self, Error>(value)
    }

    open spec fn merged(before: Self, other: Self, after: Self, res: Result<(), Error>) -> bool {
        res is Ok && after == other
    }

    fn into_optioned(self) -> (opt: Self) {
        self
    }

    fn try_from_optioned(value: Self) -> (res: Result<Self, Error>) {
        Ok(value)
    }

    fn merge(&mut self, other: Self) -> (res: Result<(), Error>) {
        *self = other;
        Ok(())
    }
}

impl Leaf for usize {
    proof fn leaf_relations() {
    }
}

impl Optionable for char {
    type Optioned = Self;
}

impl OptionableConvert for char {
    open spec fn optioned_form(full: Self, opt: Self) -> bool {
        opt == full
    }

    open spec fn rebuilt(value: Self, res: Result<Self, Error>) -> bool {
        res == Ok::<Self, Error>(value)
    }

    open spec fn merged(before: Self, other: Self, after: Self, res: Result<(), Error>) -> bool {
        res is Ok && after == other
    }

    fn into_optioned(self) -> (opt: Self) {
        self
    }

    fn try_from_optioned(value: Self) -> (res: Result<Self, Error>) {
        Ok(value)
    }

    fn merge(&mut self, other: Self) -> (res: Result<(), Error>) {
        *self = other;
        Ok(())
    }
}

impl Leaf for char {
    proof fn leaf_relations() {
    }
}

impl Optionable for bool {
    type Optioned = Self;
}

impl OptionableConvert for bool {
    open spec fn optioned_form(full: Self, opt: Self) -> bool {
        opt == full
    }

    open spec fn rebuilt(value: Self, res: Result<Self, Error>) -> bool {
        res == Ok::<Self, Error>(value)
    }

    open spec fn merged(before: Self, other: Self, after: Self, res: Result<(), Error>) -> bool {
        res is Ok && after == other
    }

    fn into_optioned(self) -> (opt: Self) {
        self
    }

    fn try_from_optioned(value: Self) -> (res: Result<Self, Error>) {
        Ok(value)
    }

    fn merge(&mut self, other: Self) -> (res: Result<(), Error>) {
        *self = other;
        Ok(())
    }
}

impl Leaf for bool {
    proof fn leaf_relations() {
    }
}

impl Optionable for String {
    type Optioned = Self;
}

impl OptionableConvert for String {
    open spec fn optioned_form(full: Self, opt: Self) -> bool {
        opt == full
    }

    open spec fn rebuilt(value: Self, res: Result<Self, Error>) -> bool {
        res == Ok::<Self, Error>(value)
    }

    open spec fn merged(before: Self, other: Self, after: Self, res: Result<(), Error>) -> bool {
        res is Ok && after == other
    }

    fn into_optioned(self) -> (opt: Self) {
        self
    }

    fn try_from_optioned(value: Self) -> (res: Result<Self, Error>) {
        Ok(value)
    }

    fn merge(&mut self, other: Self) -> (res: Result<(), Error>) {
        *self = other;
        Ok(())
    }
}

impl Leaf for String {
    proof fn leaf_relations() {
    }
}

impl<'a> Optionable for &'a str {
    type Optioned = Self;
}

impl<'a> OptionableConvert for &'a str {
    open spec fn optioned_form(full: Self, opt: Self) -> bool {
        opt == full
    }

    open spec fn rebuilt(value: Self, res: Result<Self, Error>) -> bool {
        res == Ok::<Self, Error>(value)
    }

    open spec fn merged(before: Self, other: Self, after: Self, res: Result<(), Error>) -> bool {
        res is Ok && after == other
    }

    fn into_optioned(self) -> (opt: Self) {
        self
    }

    fn try_from_optioned(value: Self) -> (res: Result<Self, Error>) {
        Ok(value)
    }

    fn merge(&mut self, other: Self) -> (res: Result<(), Error>) {
        *self = other;
        Ok(())
    }
}

impl<'a> Leaf for &'a str {
    proof fn leaf_relations() {
    }
}

} // verus!
